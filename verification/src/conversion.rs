//! The transcoding engine.
//!
//! A `Converter` is built once from a decoded source module: it assigns
//! target indices to the source's enabled PCM channels and to its two
//! instrument classes in first-seen order, bounded by the target's fixed
//! capacities (4 PCM channels, 32 instruments per class). `convert` then
//! assembles the complete target module: header tables, playlist, pattern
//! bytecode and sample blob. Capacity overruns and unresolved references
//! never abort the conversion; they are reported as warnings and the
//! offending entity or event is discarded.

use vstd::prelude::*;

use crate::format_c67::C67FMRegisters;
use crate::format_c67::C67Module;
use crate::format_c67::C67PatternCommand;
use crate::format_c67::C67SampleMetadata;
use crate::format_c67::Channel;
use crate::format_c67::PlayNoteCommand;
use crate::format_c67::Plist;
use crate::format_c67::SetVolumeCommand;
use crate::format_s3m::S3MAdlibInstrument;
use crate::format_s3m::S3MColumn;
use crate::format_s3m::S3MInstrument;
use crate::format_s3m::S3MModule;
use crate::format_s3m::S3MPattern;
use crate::format_s3m::S3MSample;

verus! {

/// A non-fatal condition met during conversion. Capacity warnings mark a
/// discarded entity; unmapped warnings mark a discarded note or volume
/// event (carrying the channel class, or the 1-based instrument
/// reference, that failed to resolve).
#[derive(Clone, Copy, PartialEq, Eq, Structural, Debug)]
pub enum ConvertWarning {
    PcmChannelCapacity,
    PcmInstrumentCapacity,
    FmInstrumentCapacity,
    PatternCapacity,
    PlaylistCapacity,
    UnmappedChannel(u8),
    UnmappedInstrument(u8),
}

/// An enabled channel whose class denotes a PCM voice.
pub open spec fn enabled_pcm(b: u8) -> bool {
    b & 0x80 != 0 && b & 0x7F <= 15
}

/// How many of the first `n` channel settings are enabled PCM channels.
pub open spec fn n_enabled_pcm(s: Seq<u8>, n: int) -> int
    decreases n,
{
    if n <= 0 {
        0
    } else {
        n_enabled_pcm(s, n - 1) + if enabled_pcm(s[n - 1]) {
            1int
        } else {
            0int
        }
    }
}

/// The channel remap table after scanning the first `n` settings: a
/// 16-slot table keyed by PCM channel class, assigning target indices
/// 0..3 in first-seen order and nothing once 4 are assigned.
pub open spec fn chan_table(s: Seq<u8>, n: int) -> Seq<Option<u8>>
    decreases n,
{
    if n <= 0 {
        Seq::new(16, |i: int| None)
    } else {
        let t = chan_table(s, n - 1);
        let c = n_enabled_pcm(s, n - 1);
        if enabled_pcm(s[n - 1]) && c < 4 {
            t.update((s[n - 1] & 0x7F) as int, Some(c as u8))
        } else {
            t
        }
    }
}

/// One capacity warning for every enabled PCM channel past the fourth.
pub open spec fn chan_warnings(s: Seq<u8>, n: int) -> Seq<ConvertWarning>
    decreases n,
{
    if n <= 0 {
        Seq::empty()
    } else {
        let w = chan_warnings(s, n - 1);
        if enabled_pcm(s[n - 1]) && n_enabled_pcm(s, n - 1) >= 4 {
            w.push(ConvertWarning::PcmChannelCapacity)
        } else {
            w
        }
    }
}

/// Whether an instrument slot holds a PCM sample.
pub open spec fn is_sample(i: S3MInstrument) -> bool {
    i matches S3MInstrument::Sample(_)
}

/// The PCM payload of an instrument slot (meaningful on Sample slots only).
pub open spec fn sample_of(i: S3MInstrument) -> S3MSample {
    match i {
        S3MInstrument::Sample(s) => s,
        S3MInstrument::Adlib(_) => vstd::pervasive::arbitrary(),
    }
}

/// The FM payload of an instrument slot (meaningful on Adlib slots only).
pub open spec fn adlib_of(i: S3MInstrument) -> S3MAdlibInstrument {
    match i {
        S3MInstrument::Sample(_) => vstd::pervasive::arbitrary(),
        S3MInstrument::Adlib(a) => a,
    }
}

/// How many of the first `n` instruments are PCM samples.
pub open spec fn n_samples(instrs: Seq<S3MInstrument>, n: int) -> int
    decreases n,
{
    if n <= 0 {
        0
    } else {
        n_samples(instrs, n - 1) + if is_sample(instrs[n - 1]) {
            1int
        } else {
            0int
        }
    }
}

/// How many of the first `n` instruments are FM instruments.
pub open spec fn n_adlibs(instrs: Seq<S3MInstrument>, n: int) -> int
    decreases n,
{
    if n <= 0 {
        0
    } else {
        n_adlibs(instrs, n - 1) + if is_sample(instrs[n - 1]) {
            0int
        } else {
            1int
        }
    }
}

/// The PCM instrument remap table after scanning the first `n`
/// instruments: a 256-slot table keyed by the source slot number
/// (truncated to a byte, as pattern references are bytes), assigning
/// target slots 0..31 in first-seen order.
pub open spec fn pcm_inst_table(instrs: Seq<S3MInstrument>, n: int) -> Seq<Option<u8>>
    decreases n,
{
    if n <= 0 {
        Seq::new(256, |i: int| None)
    } else {
        let t = pcm_inst_table(instrs, n - 1);
        let c = n_samples(instrs, n - 1);
        if is_sample(instrs[n - 1]) && c < 32 {
            t.update(((n - 1) as u8) as int, Some(c as u8))
        } else {
            t
        }
    }
}

/// The FM instrument remap table after scanning the first `n` instruments.
pub open spec fn adlib_inst_table(instrs: Seq<S3MInstrument>, n: int) -> Seq<Option<u8>>
    decreases n,
{
    if n <= 0 {
        Seq::new(256, |i: int| None)
    } else {
        let t = adlib_inst_table(instrs, n - 1);
        let c = n_adlibs(instrs, n - 1);
        if !is_sample(instrs[n - 1]) && c < 32 {
            t.update(((n - 1) as u8) as int, Some(c as u8))
        } else {
            t
        }
    }
}

/// The surviving PCM instruments, in remapped (first-seen) order.
pub open spec fn pcm_list(instrs: Seq<S3MInstrument>, n: int) -> Seq<S3MSample>
    decreases n,
{
    if n <= 0 {
        Seq::empty()
    } else {
        let l = pcm_list(instrs, n - 1);
        match instrs[n - 1] {
            S3MInstrument::Sample(s) => if n_samples(instrs, n - 1) < 32 {
                l.push(s)
            } else {
                l
            },
            S3MInstrument::Adlib(_) => l,
        }
    }
}

/// The surviving FM instruments, in remapped (first-seen) order.
pub open spec fn adlib_list(instrs: Seq<S3MInstrument>, n: int) -> Seq<S3MAdlibInstrument>
    decreases n,
{
    if n <= 0 {
        Seq::empty()
    } else {
        let l = adlib_list(instrs, n - 1);
        match instrs[n - 1] {
            S3MInstrument::Sample(_) => l,
            S3MInstrument::Adlib(a) => if n_adlibs(instrs, n - 1) < 32 {
                l.push(a)
            } else {
                l
            },
        }
    }
}

/// One capacity warning for every instrument past its class's 32nd.
pub open spec fn inst_warnings(instrs: Seq<S3MInstrument>, n: int) -> Seq<ConvertWarning>
    decreases n,
{
    if n <= 0 {
        Seq::empty()
    } else {
        let w = inst_warnings(instrs, n - 1);
        if is_sample(instrs[n - 1]) {
            if n_samples(instrs, n - 1) >= 32 {
                w.push(ConvertWarning::PcmInstrumentCapacity)
            } else {
                w
            }
        } else {
            if n_adlibs(instrs, n - 1) >= 32 {
                w.push(ConvertWarning::FmInstrumentCapacity)
            } else {
                w
            }
        }
    }
}

/// Every entry of the channel remap table addresses one of the 4 target
/// PCM channels.
pub open spec fn ctab_bounded(ctab: Seq<Option<u8>>) -> bool {
    forall|c: int|
        0 <= c < ctab.len() ==> ((#[trigger] ctab[c]) matches Option::Some(v) ==> v <= 3)
}

/// The enabled-PCM count never goes negative.
pub proof fn lemma_n_enabled_pcm_nonneg(s: Seq<u8>, n: int)
    ensures
        n_enabled_pcm(s, n) >= 0,
    decreases n,
{
    if n > 0 {
        lemma_n_enabled_pcm_nonneg(s, n - 1);
    }
}

/// The channel remap table has its 16 class slots and only ever assigns
/// target indices 0..3.
pub proof fn lemma_chan_table_bounded(s: Seq<u8>, n: int)
    ensures
        chan_table(s, n).len() == 16,
        ctab_bounded(chan_table(s, n)),
    decreases n,
{
    if n > 0 {
        lemma_chan_table_bounded(s, n - 1);
        lemma_n_enabled_pcm_nonneg(s, n - 1);
    }
}

/// A source volume (0..=64, or an instrument default up to 255) reduced
/// to the target's 4-bit range: divided by 4 and clamped to 15.
pub open spec fn vol_nibble(v: u8) -> u8 {
    if v / 4 > 15 {
        15u8
    } else {
        (v / 4) as u8
    }
}

/// The remap table entry for a channel class: only PCM classes (0..=15)
/// are ever mapped.
pub open spec fn chan_lookup(ctab: Seq<Option<u8>>, cls: u8) -> Option<u8> {
    if cls < 16 {
        ctab[cls as int]
    } else {
        None
    }
}

/// The outcome of one pattern cell: the commands it emits, the warnings
/// it raises, and the carried-forward "last instrument" value after it.
///
/// A cell first updates the carried instrument (any non-zero instrument
/// field sticks until the end of the pattern). A real note (< 254) is
/// routed by the owning instrument's class: an FM instrument plays on
/// its channel's class-16 FM slot (percussion classes above 26 are
/// silently discarded, PCM-class channels cannot host an FM note); a PCM
/// instrument needs its channel class in the channel remap table. The
/// note is dropped with a warning when the channel or the instrument did
/// not survive remapping, or when the carried instrument reference is
/// absent or out of range. A note-off (254) or a bare volume override
/// (<= 64) becomes a volume command on the same channel resolution, a
/// note-off forcing volume 0.
pub open spec fn cell_step(
    settings: Seq<u8>,
    instrs: Seq<S3MInstrument>,
    ctab: Seq<Option<u8>>,
    ptab: Seq<Option<u8>>,
    atab: Seq<Option<u8>>,
    col: S3MColumn,
    class_byte: u8,
    saved0: u8,
) -> (Seq<C67PatternCommand>, Seq<ConvertWarning>, u8) {
    let saved = if col.instrument != 0 {
        col.instrument
    } else {
        saved0
    };
    let cls = class_byte & 0x7F;
    if col.note < 254 {
        if saved == 0 || saved - 1 >= instrs.len() {
            (
                Seq::<C67PatternCommand>::empty(),
                seq![ConvertWarning::UnmappedInstrument(saved)],
                saved,
            )
        } else {
            match instrs[saved - 1] {
                S3MInstrument::Adlib(ai) => {
                    if cls > 26 {
                        (Seq::<C67PatternCommand>::empty(), Seq::<ConvertWarning>::empty(), saved)
                    } else if cls < 16 {
                        (
                            Seq::<C67PatternCommand>::empty(),
                            seq![ConvertWarning::UnmappedChannel(cls)],
                            saved,
                        )
                    } else {
                        let vol = if col.vol <= 64 {
                            col.vol
                        } else {
                            ai.volume
                        };
                        match atab[saved - 1] {
                            Option::None => (
                                Seq::<C67PatternCommand>::empty(),
                                seq![ConvertWarning::UnmappedInstrument(saved)],
                                saved,
                            ),
                            Option::Some(m) => (
                                seq![
                                    C67PatternCommand::PlayNote(
                                        PlayNoteCommand {
                                            channel: Channel::FM((cls - 16) as u8),
                                            octave: (col.note >> 4) & 7,
                                            note: col.note & 0xF,
                                            instrument: m,
                                            volume: vol_nibble(vol),
                                        },
                                    ),
                                ],
                                Seq::<ConvertWarning>::empty(),
                                saved,
                            ),
                        }
                    }
                },
                S3MInstrument::Sample(smp) => {
                    match chan_lookup(ctab, cls) {
                        Option::None => (
                            Seq::<C67PatternCommand>::empty(),
                            seq![ConvertWarning::UnmappedChannel(cls)],
                            saved,
                        ),
                        Option::Some(n) => {
                            let vol = if col.vol <= 64 {
                                col.vol
                            } else {
                                smp.volume
                            };
                            match ptab[saved - 1] {
                                Option::None => (
                                    Seq::<C67PatternCommand>::empty(),
                                    seq![ConvertWarning::UnmappedInstrument(saved)],
                                    saved,
                                ),
                                Option::Some(m) => (
                                    seq![
                                        C67PatternCommand::PlayNote(
                                            PlayNoteCommand {
                                                channel: Channel::PCM(n),
                                                octave: (col.note >> 4) & 7,
                                                note: col.note & 0xF,
                                                instrument: m,
                                                volume: vol_nibble(vol),
                                            },
                                        ),
                                    ],
                                    Seq::<ConvertWarning>::empty(),
                                    saved,
                                ),
                            }
                        },
                    }
                },
            }
        }
    } else if col.note == 254 {
        if cls <= 15 {
            match ctab[cls as int] {
                Option::None => (
                    Seq::<C67PatternCommand>::empty(),
                    seq![ConvertWarning::UnmappedChannel(cls)],
                    saved,
                ),
                Option::Some(n) => (
                    seq![
                        C67PatternCommand::SetVolume(
                            SetVolumeCommand { channel: Channel::PCM(n), volume: 0 },
                        ),
                    ],
                    Seq::<ConvertWarning>::empty(),
                    saved,
                ),
            }
        } else {
            (
                seq![
                    C67PatternCommand::SetVolume(
                        SetVolumeCommand { channel: Channel::FM((cls - 16) as u8), volume: 0 },
                    ),
                ],
                Seq::<ConvertWarning>::empty(),
                saved,
            )
        }
    } else if col.vol <= 64 {
        if cls <= 15 {
            match ctab[cls as int] {
                Option::None => (
                    Seq::<C67PatternCommand>::empty(),
                    seq![ConvertWarning::UnmappedChannel(cls)],
                    saved,
                ),
                Option::Some(n) => (
                    seq![
                        C67PatternCommand::SetVolume(
                            SetVolumeCommand {
                                channel: Channel::PCM(n),
                                volume: vol_nibble(col.vol),
                            },
                        ),
                    ],
                    Seq::<ConvertWarning>::empty(),
                    saved,
                ),
            }
        } else {
            (
                seq![
                    C67PatternCommand::SetVolume(
                        SetVolumeCommand {
                            channel: Channel::FM((cls - 16) as u8),
                            volume: vol_nibble(col.vol),
                        },
                    ),
                ],
                Seq::<ConvertWarning>::empty(),
                saved,
            )
        }
    } else {
        (Seq::<C67PatternCommand>::empty(), Seq::<ConvertWarning>::empty(), saved)
    }
}

/// The outcome of the first `n` cells of one row, threading the carried
/// instrument from cell to cell.
pub open spec fn row_step(
    settings: Seq<u8>,
    instrs: Seq<S3MInstrument>,
    ctab: Seq<Option<u8>>,
    ptab: Seq<Option<u8>>,
    atab: Seq<Option<u8>>,
    row: Seq<S3MColumn>,
    n: int,
    saved0: u8,
) -> (Seq<C67PatternCommand>, Seq<ConvertWarning>, u8)
    decreases n,
{
    if n <= 0 {
        (Seq::<C67PatternCommand>::empty(), Seq::<ConvertWarning>::empty(), saved0)
    } else {
        let prev = row_step(settings, instrs, ctab, ptab, atab, row, n - 1, saved0);
        let step = cell_step(settings, instrs, ctab, ptab, atab, row[n - 1], settings[n - 1], prev.2);
        (prev.0 + step.0, prev.1 + step.1, step.2)
    }
}

/// The outcome of the first `n` full rows of a pattern: each row's 32
/// cells followed by a one-row delay, the carried instrument starting at
/// 0 (no instrument) and persisting across rows.
pub open spec fn rows_step(
    settings: Seq<u8>,
    instrs: Seq<S3MInstrument>,
    ctab: Seq<Option<u8>>,
    ptab: Seq<Option<u8>>,
    atab: Seq<Option<u8>>,
    grid: Seq<Seq<S3MColumn>>,
    n: int,
) -> (Seq<C67PatternCommand>, Seq<ConvertWarning>, u8)
    decreases n,
{
    if n <= 0 {
        (Seq::<C67PatternCommand>::empty(), Seq::<ConvertWarning>::empty(), 0u8)
    } else {
        let prev = rows_step(settings, instrs, ctab, ptab, atab, grid, n - 1);
        let r = row_step(settings, instrs, ctab, ptab, atab, grid[n - 1], 32, prev.2);
        (prev.0 + r.0 + seq![C67PatternCommand::Delay(1)], prev.1 + r.1, r.2)
    }
}

/// The full bytecode of one transcribed pattern: rows 0..=62 in full,
/// then the row-63 special case, a one-row delay and the end marker,
/// with row 63's own events discarded.
pub open spec fn pattern_commands(
    settings: Seq<u8>,
    instrs: Seq<S3MInstrument>,
    ctab: Seq<Option<u8>>,
    ptab: Seq<Option<u8>>,
    atab: Seq<Option<u8>>,
    grid: Seq<Seq<S3MColumn>>,
) -> Seq<C67PatternCommand> {
    rows_step(settings, instrs, ctab, ptab, atab, grid, 63).0 + seq![
        C67PatternCommand::Delay(1),
        C67PatternCommand::End,
    ]
}

/// The warnings raised while transcribing one pattern.
pub open spec fn pattern_warnings(
    settings: Seq<u8>,
    instrs: Seq<S3MInstrument>,
    ctab: Seq<Option<u8>>,
    ptab: Seq<Option<u8>>,
    atab: Seq<Option<u8>>,
    grid: Seq<Seq<S3MColumn>>,
) -> Seq<ConvertWarning> {
    rows_step(settings, instrs, ctab, ptab, atab, grid, 63).1
}

/// The filler for unused pattern slots: a whole-pattern delay and the
/// end marker.
pub open spec fn filler_commands() -> Seq<C67PatternCommand> {
    seq![C67PatternCommand::Delay(64), C67PatternCommand::End]
}

/// A cell emits at most one command, and every command it emits has a
/// selector byte that fits the encoding.
pub proof fn lemma_cell_step_wf(
    settings: Seq<u8>,
    instrs: Seq<S3MInstrument>,
    ctab: Seq<Option<u8>>,
    ptab: Seq<Option<u8>>,
    atab: Seq<Option<u8>>,
    col: S3MColumn,
    class_byte: u8,
    saved0: u8,
)
    requires
        ctab_bounded(ctab),
        ctab.len() == 16,
    ensures
        cell_step(settings, instrs, ctab, ptab, atab, col, class_byte, saved0).0.len() <= 1,
        forall|i: int|
            0 <= i < cell_step(settings, instrs, ctab, ptab, atab, col, class_byte, saved0).0.len()
                ==> crate::format_c67::command_wf(
                #[trigger] cell_step(settings, instrs, ctab, ptab, atab, col, class_byte, saved0).0[i],
            ),
{
    assert(class_byte & 0x7F <= 127) by (bit_vector);
}

/// A row's first `n` cells emit at most `n` commands, all well-formed.
pub proof fn lemma_row_step_wf(
    settings: Seq<u8>,
    instrs: Seq<S3MInstrument>,
    ctab: Seq<Option<u8>>,
    ptab: Seq<Option<u8>>,
    atab: Seq<Option<u8>>,
    row: Seq<S3MColumn>,
    n: int,
    saved0: u8,
)
    requires
        ctab_bounded(ctab),
        ctab.len() == 16,
    ensures
        row_step(settings, instrs, ctab, ptab, atab, row, n, saved0).0.len() <= if n <= 0 {
            0int
        } else {
            n
        },
        forall|i: int|
            0 <= i < row_step(settings, instrs, ctab, ptab, atab, row, n, saved0).0.len()
                ==> crate::format_c67::command_wf(
                #[trigger] row_step(settings, instrs, ctab, ptab, atab, row, n, saved0).0[i],
            ),
    decreases n,
{
    if n > 0 {
        lemma_row_step_wf(settings, instrs, ctab, ptab, atab, row, n - 1, saved0);
        let prev = row_step(settings, instrs, ctab, ptab, atab, row, n - 1, saved0);
        lemma_cell_step_wf(settings, instrs, ctab, ptab, atab, row[n - 1], settings[n - 1], prev.2);
    }
}

/// A pattern's first `n` rows emit at most `33 * n` commands, all
/// well-formed.
pub proof fn lemma_rows_step_wf(
    settings: Seq<u8>,
    instrs: Seq<S3MInstrument>,
    ctab: Seq<Option<u8>>,
    ptab: Seq<Option<u8>>,
    atab: Seq<Option<u8>>,
    grid: Seq<Seq<S3MColumn>>,
    n: int,
)
    requires
        ctab_bounded(ctab),
        ctab.len() == 16,
    ensures
        rows_step(settings, instrs, ctab, ptab, atab, grid, n).0.len() <= if n <= 0 {
            0int
        } else {
            33 * n
        },
        forall|i: int|
            0 <= i < rows_step(settings, instrs, ctab, ptab, atab, grid, n).0.len()
                ==> crate::format_c67::command_wf(
                #[trigger] rows_step(settings, instrs, ctab, ptab, atab, grid, n).0[i],
            ),
    decreases n,
{
    if n > 0 {
        lemma_rows_step_wf(settings, instrs, ctab, ptab, atab, grid, n - 1);
        let prev = rows_step(settings, instrs, ctab, ptab, atab, grid, n - 1);
        lemma_row_step_wf(settings, instrs, ctab, ptab, atab, grid[n - 1], 32, prev.2);
    }
}

/// A transcribed pattern holds at most 2081 commands, all well-formed,
/// so its encoding holds at most 6243 bytes.
pub proof fn lemma_pattern_commands_wf(
    settings: Seq<u8>,
    instrs: Seq<S3MInstrument>,
    ctab: Seq<Option<u8>>,
    ptab: Seq<Option<u8>>,
    atab: Seq<Option<u8>>,
    grid: Seq<Seq<S3MColumn>>,
)
    requires
        ctab_bounded(ctab),
        ctab.len() == 16,
    ensures
        pattern_commands(settings, instrs, ctab, ptab, atab, grid).len() <= 2081,
        forall|i: int|
            0 <= i < pattern_commands(settings, instrs, ctab, ptab, atab, grid).len()
                ==> crate::format_c67::command_wf(
                #[trigger] pattern_commands(settings, instrs, ctab, ptab, atab, grid)[i],
            ),
        crate::format_c67::commands_bytes(
            pattern_commands(settings, instrs, ctab, ptab, atab, grid),
        ).len() <= 6243,
{
    lemma_rows_step_wf(settings, instrs, ctab, ptab, atab, grid, 63);
    crate::format_c67::lemma_commands_bytes_len(
        pattern_commands(settings, instrs, ctab, ptab, atab, grid),
    );
}

/// The target metadata of one surviving PCM instrument: the audio length,
/// and the loop points only when the source loop flag is set (otherwise
/// the loop end stays at the empty slot's 20-bit maximum).
pub open spec fn sample_meta_of(s: S3MSample) -> C67SampleMetadata {
    C67SampleMetadata {
        _unused: 0,
        sample_length: s.audio@.len() as u32,
        loop_start: if s.flags & 1 != 0 {
            s.loop_begin
        } else {
            0
        },
        loop_end: if s.flags & 1 != 0 {
            s.loop_end
        } else {
            0xFFFFF
        },
    }
}

/// The 12 raw FM register bytes repacked into the target's 11-byte
/// layout; the two-bit scale-level field of each operator is bit-reversed
/// as it moves into the top of the combined scale/output-level byte.
pub open spec fn fm_regs_of(a: S3MAdlibInstrument) -> C67FMRegisters {
    C67FMRegisters {
        feedback_connection: a.d0a,
        modulator_characteristics: a.d00,
        modulator_scale_and_output_level: (a.d02 & 0x3F) | crate::format_s3m::rev2_high(
            a.d02 >> 6,
        ),
        modulator_attack_decay_level: a.d04,
        modulator_sustain_release_level: a.d06,
        modulator_wave_select: a.d08,
        carrier_characteristics: a.d01,
        carrier_scale_and_output_level: (a.d03 & 0x3F) | crate::format_s3m::rev2_high(a.d03 >> 6),
        carrier_attack_decay_level: a.d05,
        carrier_sustain_release_level: a.d07,
        carrier_wave_select: a.d09,
    }
}

/// The first `n` orders with every separator (254) removed.
pub open spec fn nonsep(orders: Seq<u8>, n: int) -> Seq<u8>
    decreases n,
{
    if n <= 0 {
        Seq::empty()
    } else {
        nonsep(orders, n - 1) + if orders[n - 1] == 254 {
            Seq::<u8>::empty()
        } else {
            seq![orders[n - 1]]
        }
    }
}

/// A signed 16-bit sample reduced to 8-bit unsigned: the high byte
/// (arithmetic shift) offset by 128.
pub open spec fn sample_to_unsigned(v: i16) -> u8 {
    (((v as int) + 32768) / 256) as u8
}

/// A whole audio track reduced to 8-bit unsigned.
pub open spec fn audio_bytes(a: Seq<i16>) -> Seq<u8> {
    a.map(|i: int, v: i16| sample_to_unsigned(v))
}

/// The sample blob: the converted audio of the first `n` surviving PCM
/// instruments, concatenated in remapped order.
pub open spec fn sample_blob(samples: Seq<S3MSample>, n: int) -> Seq<u8>
    decreases n,
{
    if n <= 0 {
        Seq::empty()
    } else {
        sample_blob(samples, n - 1) + audio_bytes(samples[n - 1].audio@)
    }
}

/// Byte `o` of filename slot `s` in a 13-byte-stride filename table.
pub open spec fn filename_byte(t: Seq<u8>, s: int, o: int) -> u8 {
    t[13 * s + o]
}

/// What the converter relies on of one instrument slot: a 12-byte
/// filename, and audio whose length fits the target's 32-bit length field.
pub open spec fn inst_wf(i: S3MInstrument) -> bool {
    match i {
        S3MInstrument::Sample(s) => s.filename@.len() == 12 && s.audio@.len() <= u32::MAX,
        S3MInstrument::Adlib(a) => a.filename@.len() == 12,
    }
}

/// What the converter relies on of a decoded module: a full channel
/// table, full 64 by 32 pattern grids, and well-formed instrument slots.
pub open spec fn source_wf(m: S3MModule) -> bool {
    &&& m.channel_settings@.len() == 32
    &&& forall|i: int|
        0 <= i < m.patterns@.len() ==> crate::format_s3m::pattern_wf(#[trigger] m.patterns@[i])
    &&& forall|i: int| 0 <= i < m.instruments@.len() ==> inst_wf(#[trigger] m.instruments@[i])
}

/// The transcoding engine: the source module together with the remap
/// tables and the surviving instruments of each class, built once and
/// immutable thereafter.
pub struct Converter<'m> {
    module: &'m S3MModule,
    pcm_channel_remap_table: Vec<Option<u8>>,
    pcm_instrument_remap_table: Vec<Option<u8>>,
    adlib_instrument_remap_table: Vec<Option<u8>>,
    warnings: Vec<ConvertWarning>,

    pcm_instruments: Vec<usize>,
    adlib_instruments: Vec<usize>,
}

/// The number of mapped PCM channels never passes 4, and the surviving
/// instrument lists never pass 32 entries.
pub proof fn lemma_counts_bound(instrs: Seq<S3MInstrument>, n: int)
    ensures
        pcm_list(instrs, n).len() <= 32,
        adlib_list(instrs, n).len() <= 32,
        pcm_list(instrs, n).len() == if n_samples(instrs, n) < 32 {
            n_samples(instrs, n)
        } else {
            32int
        },
        adlib_list(instrs, n).len() == if n_adlibs(instrs, n) < 32 {
            n_adlibs(instrs, n)
        } else {
            32int
        },
    decreases n,
{
    if n > 0 {
        lemma_counts_bound(instrs, n - 1);
    }
}

impl<'m> Converter<'m> {
    /// The source module this converter was built from.
    pub closed spec fn spec_module(self) -> S3MModule {
        *self.module
    }

    /// The channel remap table, as built by `new`.
    pub closed spec fn spec_chan_table(self) -> Seq<Option<u8>> {
        self.pcm_channel_remap_table@
    }

    /// The PCM instrument remap table, as built by `new`.
    pub closed spec fn spec_pcm_table(self) -> Seq<Option<u8>> {
        self.pcm_instrument_remap_table@
    }

    /// The FM instrument remap table, as built by `new`.
    pub closed spec fn spec_adlib_table(self) -> Seq<Option<u8>> {
        self.adlib_instrument_remap_table@
    }

    /// The capacity warnings gathered while the tables were built.
    pub closed spec fn spec_warnings(self) -> Seq<ConvertWarning> {
        self.warnings@
    }

    /// The surviving instruments of each class, in remapped order.
    pub closed spec fn spec_pcm_instruments(self) -> Seq<S3MSample> {
        self.pcm_instruments@.map(|j: int, idx: usize| sample_of(self.module.instruments@[idx as int]))
    }

    /// The surviving FM instruments, in remapped order.
    pub closed spec fn spec_adlib_instruments(self) -> Seq<S3MAdlibInstrument> {
        self.adlib_instruments@.map(
            |j: int, idx: usize| adlib_of(self.module.instruments@[idx as int]),
        )
    }

    /// Structural soundness of a built converter: the tables have their
    /// fixed sizes and every recorded instrument index points at an
    /// instrument of the right class.
    pub closed spec fn wf(self) -> bool {
        &&& self.module.channel_settings@.len() == 32
        &&& self.pcm_channel_remap_table@.len() == 16
        &&& ctab_bounded(self.pcm_channel_remap_table@)
        &&& self.pcm_instrument_remap_table@.len() == 256
        &&& self.adlib_instrument_remap_table@.len() == 256
        &&& self.pcm_instruments@.len() <= 32
        &&& self.adlib_instruments@.len() <= 32
        &&& forall|j: int|
            0 <= j < self.pcm_instruments@.len() ==> (((#[trigger] self.pcm_instruments@[j]) as int)
                < self.module.instruments@.len() && is_sample(
                self.module.instruments@[self.pcm_instruments@[j] as int],
            ))
        &&& forall|j: int|
            0 <= j < self.adlib_instruments@.len() ==> (((
            #[trigger] self.adlib_instruments@[j]) as int) < self.module.instruments@.len()
                && !is_sample(self.module.instruments@[self.adlib_instruments@[j] as int]))
    }

    /// Build the remap tables: scan the channel settings, assigning
    /// target PCM channels 0..3 to enabled PCM-class channels in
    /// first-seen order, then scan the instruments, assigning target
    /// slots 0..31 per class in first-seen order. Excess entities are
    /// discarded with a capacity warning.
    pub fn new(module: &'m S3MModule) -> (r: Converter<'m>)
        requires
            module.channel_settings@.len() == 32,
        ensures
            r.wf(),
            r.spec_module() == *module,
            r.spec_chan_table() == chan_table(module.channel_settings@, 32),
            r.spec_pcm_table() == pcm_inst_table(module.instruments@, module.instruments@.len() as int),
            r.spec_adlib_table() == adlib_inst_table(
                module.instruments@,
                module.instruments@.len() as int,
            ),
            r.spec_pcm_instruments() == pcm_list(
                module.instruments@,
                module.instruments@.len() as int,
            ),
            r.spec_adlib_instruments() == adlib_list(
                module.instruments@,
                module.instruments@.len() as int,
            ),
            r.spec_warnings() == chan_warnings(module.channel_settings@, 32) + inst_warnings(
                module.instruments@,
                module.instruments@.len() as int,
            ),
    {
        let mut warnings: Vec<ConvertWarning> = Vec::new();

        // Channel remap table, keyed by PCM channel class.
        let mut pcm_channel_remap_table: Vec<Option<u8>> = none_table(16);
        let mut pcm_channel_remap_index: u8 = 0;
        assert(pcm_channel_remap_table@ =~= chan_table(module.channel_settings@, 0));
        let mut index: usize = 0;
        while index < 32
            invariant
                module.channel_settings@.len() == 32,
                index <= 32,
                pcm_channel_remap_index == if n_enabled_pcm(module.channel_settings@, index as int)
                    < 4 {
                    n_enabled_pcm(module.channel_settings@, index as int)
                } else {
                    4int
                },
                pcm_channel_remap_table@.len() == 16,
                pcm_channel_remap_table@ == chan_table(module.channel_settings@, index as int),
                warnings@ == chan_warnings(module.channel_settings@, index as int),
            decreases 32 - index,
        {
            let channel_setting = module.channel_settings[index];
            if channel_setting & 0x80 == 0 {
                // Disabled channel: never mapped.
            } else if channel_setting & 0x7F <= 15 {
                if pcm_channel_remap_index < 4 {
                    pcm_channel_remap_table[(channel_setting & 0x7F) as usize] = Some(
                        pcm_channel_remap_index,
                    );
                    pcm_channel_remap_index = pcm_channel_remap_index + 1;
                } else {
                    warnings.push(ConvertWarning::PcmChannelCapacity);
                }
            }
            index = index + 1;
        }

        // Instrument remap tables, keyed by the source slot number.
        let mut pcm_instrument_remap_table: Vec<Option<u8>> = none_table(256);
        let mut pcm_instrument_remap_index: u8 = 0;
        let mut adlib_instrument_remap_table: Vec<Option<u8>> = none_table(256);
        let mut adlib_instrument_remap_index: u8 = 0;
        let mut pcm_instruments: Vec<usize> = Vec::new();
        let mut adlib_instruments: Vec<usize> = Vec::new();
        assert(pcm_instrument_remap_table@ =~= pcm_inst_table(module.instruments@, 0));
        assert(adlib_instrument_remap_table@ =~= adlib_inst_table(module.instruments@, 0));
        let ghost cw = warnings@;
        let mut index: usize = 0;
        while index < module.instruments.len()
            invariant
                index <= module.instruments@.len(),
                pcm_instrument_remap_index == if n_samples(module.instruments@, index as int) < 32 {
                    n_samples(module.instruments@, index as int)
                } else {
                    32int
                },
                adlib_instrument_remap_index == if n_adlibs(module.instruments@, index as int)
                    < 32 {
                    n_adlibs(module.instruments@, index as int)
                } else {
                    32int
                },
                pcm_instrument_remap_table@.len() == 256,
                adlib_instrument_remap_table@.len() == 256,
                pcm_instrument_remap_table@ == pcm_inst_table(module.instruments@, index as int),
                adlib_instrument_remap_table@ == adlib_inst_table(
                    module.instruments@,
                    index as int,
                ),
                pcm_instruments@.len() == pcm_list(module.instruments@, index as int).len(),
                adlib_instruments@.len() == adlib_list(module.instruments@, index as int).len(),
                forall|j: int|
                    0 <= j < pcm_instruments@.len() ==> (((#[trigger] pcm_instruments@[j]) as int)
                        < index && is_sample(module.instruments@[pcm_instruments@[j] as int])),
                forall|j: int|
                    0 <= j < adlib_instruments@.len() ==> (((
                    #[trigger] adlib_instruments@[j]) as int) < index && !is_sample(
                        module.instruments@[adlib_instruments@[j] as int],
                    )),
                pcm_instruments@.map(
                    |j: int, idx: usize| sample_of(module.instruments@[idx as int]),
                ) == pcm_list(module.instruments@, index as int),
                adlib_instruments@.map(
                    |j: int, idx: usize| adlib_of(module.instruments@[idx as int]),
                ) == adlib_list(module.instruments@, index as int),
                warnings@ == cw + inst_warnings(module.instruments@, index as int),
            decreases module.instruments@.len() - index,
        {
            match &module.instruments[index] {
                S3MInstrument::Sample(sample) => {
                    if pcm_instrument_remap_index < 32 {
                        pcm_instruments.push(index);
                        pcm_instrument_remap_table[index % 256] = Some(pcm_instrument_remap_index);
                        pcm_instrument_remap_index = pcm_instrument_remap_index + 1;
                        proof {
                            assert(index % 256 == (index as u8) as usize) by (bit_vector);
                            assert(pcm_instruments@.map(
                                |j: int, idx: usize| sample_of(module.instruments@[idx as int]),
                            ) =~= pcm_list(module.instruments@, index + 1));
                            assert(adlib_instruments@.map(
                                |j: int, idx: usize| adlib_of(module.instruments@[idx as int]),
                            ) =~= adlib_list(module.instruments@, index + 1));
                        }
                    } else {
                        warnings.push(ConvertWarning::PcmInstrumentCapacity);
                    }
                },
                S3MInstrument::Adlib(instrument) => {
                    if adlib_instrument_remap_index < 32 {
                        adlib_instruments.push(index);
                        adlib_instrument_remap_table[index % 256] = Some(
                            adlib_instrument_remap_index,
                        );
                        adlib_instrument_remap_index = adlib_instrument_remap_index + 1;
                        proof {
                            assert(index % 256 == (index as u8) as usize) by (bit_vector);
                            assert(pcm_instruments@.map(
                                |j: int, idx: usize| sample_of(module.instruments@[idx as int]),
                            ) =~= pcm_list(module.instruments@, index + 1));
                            assert(adlib_instruments@.map(
                                |j: int, idx: usize| adlib_of(module.instruments@[idx as int]),
                            ) =~= adlib_list(module.instruments@, index + 1));
                        }
                    } else {
                        warnings.push(ConvertWarning::FmInstrumentCapacity);
                    }
                },
            }
            index = index + 1;
        }

        proof {
            lemma_counts_bound(module.instruments@, module.instruments@.len() as int);
            lemma_chan_table_bounded(module.channel_settings@, 32);
        }
        Converter {
            module,
            pcm_channel_remap_table,
            pcm_instrument_remap_table,
            adlib_instrument_remap_table,
            warnings,
            pcm_instruments,
            adlib_instruments,
        }
    }

    /// The warnings gathered while this converter was built.
    pub fn warnings(&self) -> (r: &Vec<ConvertWarning>)
        ensures
            r@ == self.spec_warnings(),
    {
        &self.warnings
    }

    /// The bytecode of an unused pattern slot: a whole-pattern delay and
    /// the end marker.
    pub fn generate_empty_pattern(&self) -> (r: Vec<C67PatternCommand>)
        ensures
            r@ == filler_commands(),
    {
        let mut commands: Vec<C67PatternCommand> = Vec::new();
        commands.push(C67PatternCommand::Delay(64));
        commands.push(C67PatternCommand::End);
        assert(commands@ =~= filler_commands());
        commands
    }

    /// The source patterns as mathematical grids.
    pub open spec fn spec_grids(self) -> Seq<Seq<Seq<S3MColumn>>> {
        self.spec_module().patterns@.map(
            |i: int, p: S3MPattern| crate::format_s3m::grid_view(p),
        )
    }

    /// The bytecode of target pattern slot `i`: the transcription of
    /// source pattern `i` for the slots a source pattern reaches (the
    /// target holds 128 at most), the silent filler beyond them.
    pub open spec fn spec_pat_cmds(self, i: int) -> Seq<C67PatternCommand> {
        if 0 <= i < self.spec_grids().len() && i < 128 {
            pattern_commands(
                self.spec_module().channel_settings@,
                self.spec_module().instruments@,
                self.spec_chan_table(),
                self.spec_pcm_table(),
                self.spec_adlib_table(),
                self.spec_grids()[i],
            )
        } else {
            filler_commands()
        }
    }

    /// The encoded bytes of target pattern slot `i`.
    pub open spec fn spec_pat_bytes(self, i: int) -> Seq<u8> {
        crate::format_c67::commands_bytes(self.spec_pat_cmds(i))
    }

    /// The first `n` pattern slots' bytes, concatenated.
    pub open spec fn spec_pat_blob(self, n: int) -> Seq<u8>
        decreases n,
    {
        if n <= 0 {
            Seq::empty()
        } else {
            self.spec_pat_blob(n - 1) + self.spec_pat_bytes(n - 1)
        }
    }

    /// The warnings of the first `n` transcribed patterns, in order.
    pub open spec fn spec_pats_warnings(self, n: int) -> Seq<ConvertWarning>
        decreases n,
    {
        if n <= 0 {
            Seq::empty()
        } else {
            self.spec_pats_warnings(n - 1) + pattern_warnings(
                self.spec_module().channel_settings@,
                self.spec_module().instruments@,
                self.spec_chan_table(),
                self.spec_pcm_table(),
                self.spec_adlib_table(),
                self.spec_grids()[n - 1],
            )
        }
    }

    /// The order list with separators removed.
    pub open spec fn spec_nonsep(self) -> Seq<u8> {
        nonsep(self.spec_module().orders@, self.spec_module().orders@.len() as int)
    }

    /// The warnings of the pattern phase: each transcribed pattern's
    /// warnings in order, then a capacity warning when source patterns
    /// past the 128th were dropped.
    pub open spec fn spec_pattern_phase_warnings(self) -> Seq<ConvertWarning> {
        let np: int = if self.spec_grids().len() < 128 {
            self.spec_grids().len() as int
        } else {
            128int
        };
        let cap_w: Seq<ConvertWarning> = if self.spec_grids().len() > 128 {
            seq![ConvertWarning::PatternCapacity]
        } else {
            Seq::empty()
        };
        self.spec_pats_warnings(np) + cap_w
    }

    /// Every warning `convert` raises, in order: a playlist overflow
    /// first, then the pattern phase's warnings.
    pub open spec fn spec_convert_warnings(self) -> Seq<ConvertWarning> {
        let playlist_w: Seq<ConvertWarning> = if self.spec_nonsep().len() > 256 {
            seq![ConvertWarning::PlaylistCapacity]
        } else {
            Seq::empty()
        };
        playlist_w + self.spec_pattern_phase_warnings()
    }

    /// Transcribe one 64-row source pattern into target bytecode,
    /// raising a warning for every discarded note or volume event.
    #[verifier::loop_isolation(false)]
    pub fn convert_pattern(&self, pattern: &S3MPattern) -> (r: (
        Vec<C67PatternCommand>,
        Vec<ConvertWarning>,
    ))
        requires
            self.wf(),
            crate::format_s3m::pattern_wf(*pattern),
        ensures
            r.0@ == pattern_commands(
                self.spec_module().channel_settings@,
                self.spec_module().instruments@,
                self.spec_chan_table(),
                self.spec_pcm_table(),
                self.spec_adlib_table(),
                crate::format_s3m::grid_view(*pattern),
            ),
            r.1@ == pattern_warnings(
                self.spec_module().channel_settings@,
                self.spec_module().instruments@,
                self.spec_chan_table(),
                self.spec_pcm_table(),
                self.spec_adlib_table(),
                crate::format_s3m::grid_view(*pattern),
            ),
    {
        let ghost settings = self.module.channel_settings@;
        let ghost instrs = self.module.instruments@;
        let ghost ctab = self.pcm_channel_remap_table@;
        let ghost ptab = self.pcm_instrument_remap_table@;
        let ghost atab = self.adlib_instrument_remap_table@;
        let ghost grid = crate::format_s3m::grid_view(*pattern);

        let mut commands: Vec<C67PatternCommand> = Vec::new();
        let mut warnings: Vec<ConvertWarning> = Vec::new();
        let mut saved_instrument: u8 = 0;

        let mut row_index: usize = 0;
        while row_index < 63
            invariant
                row_index <= 63,
                commands@ == rows_step(settings, instrs, ctab, ptab, atab, grid, row_index as int).0,
                warnings@ == rows_step(settings, instrs, ctab, ptab, atab, grid, row_index as int).1,
                saved_instrument == rows_step(
                    settings,
                    instrs,
                    ctab,
                    ptab,
                    atab,
                    grid,
                    row_index as int,
                ).2,
            decreases 63 - row_index,
        {
            let ghost rs_prev = rows_step(settings, instrs, ctab, ptab, atab, grid, row_index as int);
            let row: &crate::format_s3m::S3MRow = &pattern[row_index];
            let ghost row_seq = grid[row_index as int];
            proof {
                assert(row@ == row_seq);
            }

            let mut channel_index: usize = 0;
            while channel_index < 32
                invariant
                    channel_index <= 32,
                    commands@ == rs_prev.0 + row_step(
                        settings,
                        instrs,
                        ctab,
                        ptab,
                        atab,
                        row_seq,
                        channel_index as int,
                        rs_prev.2,
                    ).0,
                    warnings@ == rs_prev.1 + row_step(
                        settings,
                        instrs,
                        ctab,
                        ptab,
                        atab,
                        row_seq,
                        channel_index as int,
                        rs_prev.2,
                    ).1,
                    saved_instrument == row_step(
                        settings,
                        instrs,
                        ctab,
                        ptab,
                        atab,
                        row_seq,
                        channel_index as int,
                        rs_prev.2,
                    ).2,
                decreases 32 - channel_index,
            {
                let ghost prev = row_step(
                    settings,
                    instrs,
                    ctab,
                    ptab,
                    atab,
                    row_seq,
                    channel_index as int,
                    rs_prev.2,
                );
                let ghost pre_c = commands@;
                let ghost pre_w = warnings@;
                let col = row[channel_index];
                if col.instrument != 0 {
                    saved_instrument = col.instrument;
                }
                let class_byte = self.module.channel_settings[channel_index];
                let cls = class_byte & 0x7F;
                if col.note < 254 {
                    if saved_instrument == 0 || (saved_instrument - 1) as usize
                        >= self.module.instruments.len() {
                        warnings.push(ConvertWarning::UnmappedInstrument(saved_instrument));
                    } else {
                        match &self.module.instruments[(saved_instrument - 1) as usize] {
                            S3MInstrument::Adlib(ai) => {
                                if cls > 26 {
                                    // Percussion rows carry no melodic note.
                                } else if cls < 16 {
                                    warnings.push(ConvertWarning::UnmappedChannel(cls));
                                } else {
                                    let vol = if col.vol <= 64 {
                                        col.vol
                                    } else {
                                        ai.volume
                                    };
                                    match self.adlib_instrument_remap_table[(saved_instrument
                                        - 1) as usize] {
                                        Option::None => {
                                            warnings.push(
                                                ConvertWarning::UnmappedInstrument(
                                                    saved_instrument,
                                                ),
                                            );
                                        },
                                        Option::Some(m) => {
                                            commands.push(
                                                C67PatternCommand::PlayNote(
                                                    PlayNoteCommand {
                                                        channel: Channel::FM(cls - 16),
                                                        octave: (col.note >> 4) & 7,
                                                        note: col.note & 0xF,
                                                        instrument: m,
                                                        volume: vol_nibble_exec(vol),
                                                    },
                                                ),
                                            );
                                        },
                                    }
                                }
                            },
                            S3MInstrument::Sample(smp) => {
                                let lookup: Option<u8> = if cls < 16 {
                                    self.pcm_channel_remap_table[cls as usize]
                                } else {
                                    Option::None
                                };
                                match lookup {
                                    Option::None => {
                                        warnings.push(ConvertWarning::UnmappedChannel(cls));
                                    },
                                    Option::Some(n) => {
                                        let vol = if col.vol <= 64 {
                                            col.vol
                                        } else {
                                            smp.volume
                                        };
                                        match self.pcm_instrument_remap_table[(saved_instrument
                                            - 1) as usize] {
                                            Option::None => {
                                                warnings.push(
                                                    ConvertWarning::UnmappedInstrument(
                                                        saved_instrument,
                                                    ),
                                                );
                                            },
                                            Option::Some(m) => {
                                                commands.push(
                                                    C67PatternCommand::PlayNote(
                                                        PlayNoteCommand {
                                                            channel: Channel::PCM(n),
                                                            octave: (col.note >> 4) & 7,
                                                            note: col.note & 0xF,
                                                            instrument: m,
                                                            volume: vol_nibble_exec(vol),
                                                        },
                                                    ),
                                                );
                                            },
                                        }
                                    },
                                }
                            },
                        }
                    }
                } else if col.note == 254 {
                    if cls <= 15 {
                        match self.pcm_channel_remap_table[cls as usize] {
                            Option::None => {
                                warnings.push(ConvertWarning::UnmappedChannel(cls));
                            },
                            Option::Some(n) => {
                                commands.push(
                                    C67PatternCommand::SetVolume(
                                        SetVolumeCommand { channel: Channel::PCM(n), volume: 0 },
                                    ),
                                );
                            },
                        }
                    } else {
                        commands.push(
                            C67PatternCommand::SetVolume(
                                SetVolumeCommand { channel: Channel::FM(cls - 16), volume: 0 },
                            ),
                        );
                    }
                } else if col.vol <= 64 {
                    if cls <= 15 {
                        match self.pcm_channel_remap_table[cls as usize] {
                            Option::None => {
                                warnings.push(ConvertWarning::UnmappedChannel(cls));
                            },
                            Option::Some(n) => {
                                commands.push(
                                    C67PatternCommand::SetVolume(
                                        SetVolumeCommand {
                                            channel: Channel::PCM(n),
                                            volume: vol_nibble_exec(col.vol),
                                        },
                                    ),
                                );
                            },
                        }
                    } else {
                        commands.push(
                            C67PatternCommand::SetVolume(
                                SetVolumeCommand {
                                    channel: Channel::FM(cls - 16),
                                    volume: vol_nibble_exec(col.vol),
                                },
                            ),
                        );
                    }
                }
                proof {
                    let step = cell_step(
                        settings,
                        instrs,
                        ctab,
                        ptab,
                        atab,
                        row_seq[channel_index as int],
                        settings[channel_index as int],
                        prev.2,
                    );
                    assert(commands@ =~= pre_c + step.0);
                    assert(warnings@ =~= pre_w + step.1);
                    assert(saved_instrument == step.2);
                    let next = row_step(
                        settings,
                        instrs,
                        ctab,
                        ptab,
                        atab,
                        row_seq,
                        channel_index + 1,
                        rs_prev.2,
                    );
                    assert(next.0 == prev.0 + step.0 && next.1 == prev.1 + step.1 && next.2
                        == step.2);
                    assert(commands@ =~= rs_prev.0 + next.0);
                    assert(warnings@ =~= rs_prev.1 + next.1);
                }
                channel_index = channel_index + 1;
            }
            commands.push(C67PatternCommand::Delay(1));
            proof {
                let r_row = row_step(settings, instrs, ctab, ptab, atab, row_seq, 32, rs_prev.2);
                let next = rows_step(settings, instrs, ctab, ptab, atab, grid, row_index + 1);
                assert(next.0 == rs_prev.0 + r_row.0 + seq![C67PatternCommand::Delay(1)] && next.1
                    == rs_prev.1 + r_row.1 && next.2 == r_row.2);
                assert(commands@ =~= next.0);
            }
            row_index = row_index + 1;
        }
        commands.push(C67PatternCommand::Delay(1));
        commands.push(C67PatternCommand::End);
        proof {
            assert(commands@ =~= pattern_commands(settings, instrs, ctab, ptab, atab, grid));
        }
        (commands, warnings)
    }

    /// The 13-byte-stride filename table of the surviving PCM
    /// instruments: 12 name bytes and a zero terminator per slot, zeros
    /// beyond the surviving slots.
    #[verifier::loop_isolation(false)]
    fn pcm_filenames_table(&self) -> (t: Vec<u8>)
        requires
            self.wf(),
            source_wf(self.spec_module()),
        ensures
            t@.len() == 416,
            forall|s: int, o: int|
                0 <= s < self.spec_pcm_instruments().len() && 0 <= o < 12
                    ==> #[trigger] filename_byte(t@, s, o)
                    == self.spec_pcm_instruments()[s].filename@[o],
            forall|s: int|
                0 <= s < self.spec_pcm_instruments().len() ==> #[trigger] filename_byte(t@, s, 12)
                    == 0,
            forall|i: int| 13 * self.spec_pcm_instruments().len() <= i < 416 ==> t@[i] == 0,
    {
        let ghost pcm = self.spec_pcm_instruments();
        let mut t = crate::format_c67::zero_bytes(416);
        let mut index: usize = 0;
        while index < self.pcm_instruments.len()
            invariant
                index <= self.pcm_instruments@.len(),
                t@.len() == 416,
                forall|s: int, o: int|
                    0 <= s < index && 0 <= o < 12 ==> #[trigger] filename_byte(t@, s, o)
                        == pcm[s].filename@[o],
                forall|s: int| 0 <= s < index ==> #[trigger] filename_byte(t@, s, 12) == 0,
                forall|i: int| 0 <= i < 416 && 13 * index <= i ==> t@[i] == 0,
            decreases self.pcm_instruments@.len() - index,
        {
            let inst_idx = self.pcm_instruments[index];
            match &self.module.instruments[inst_idx] {
                S3MInstrument::Sample(sample) => {
                    proof {
                        assert(inst_wf(self.module.instruments@[inst_idx as int]));
                        assert(pcm[index as int] == *sample);
                    }
                    let mut k: usize = 0;
                    while k < 12
                        invariant
                            k <= 12,
                            t@.len() == 416,
                            forall|s: int, o: int|
                                0 <= s < index && 0 <= o < 12 ==> #[trigger] filename_byte(
                                    t@,
                                    s,
                                    o,
                                ) == pcm[s].filename@[o],
                            forall|s: int|
                                0 <= s < index ==> #[trigger] filename_byte(t@, s, 12) == 0,
                            forall|o: int|
                                0 <= o < k ==> #[trigger] filename_byte(t@, index as int, o)
                                    == pcm[index as int].filename@[o],
                            forall|i: int| 0 <= i < 416 && 13 * index + k <= i ==> t@[i] == 0,
                        decreases 12 - k,
                    {
                        let ghost t_pre = t@;
                        t[index * 13 + k] = sample.filename[k];
                        proof {
                            assert forall|s: int, o: int|
                                0 <= s < index && 0 <= o < 12 implies #[trigger] filename_byte(
                                t@,
                                s,
                                o,
                            ) == pcm[s].filename@[o] by {
                                assert(filename_byte(t_pre, s, o) == pcm[s].filename@[o]);
                                assert(13 * s + o != 13 * index + k);
                            }
                            assert forall|s: int|
                                0 <= s < index implies #[trigger] filename_byte(t@, s, 12)
                                == 0 by {
                                assert(filename_byte(t_pre, s, 12) == 0);
                                assert(13 * s + 12 != 13 * index + k);
                            }
                            assert forall|o: int|
                                0 <= o < k + 1 implies #[trigger] filename_byte(
                                t@,
                                index as int,
                                o,
                            ) == pcm[index as int].filename@[o] by {
                                if o < k {
                                    assert(filename_byte(t_pre, index as int, o)
                                        == pcm[index as int].filename@[o]);
                                    assert(13 * index + o != 13 * index + k);
                                } else {
                                    assert(filename_byte(t@, index as int, o) == t@[13 * index
                                        + k]);
                                }
                            }
                        }
                        k = k + 1;
                    }
                },
                S3MInstrument::Adlib(_) => {
                    proof {
                        assert(false);
                    }
                },
            }
            index = index + 1;
        }
        t
    }

    /// The 13-byte-stride filename table of the surviving FM instruments.
    #[verifier::loop_isolation(false)]
    fn adlib_filenames_table(&self) -> (t: Vec<u8>)
        requires
            self.wf(),
            source_wf(self.spec_module()),
        ensures
            t@.len() == 416,
            forall|s: int, o: int|
                0 <= s < self.spec_adlib_instruments().len() && 0 <= o < 12
                    ==> #[trigger] filename_byte(t@, s, o)
                    == self.spec_adlib_instruments()[s].filename@[o],
            forall|s: int|
                0 <= s < self.spec_adlib_instruments().len() ==> #[trigger] filename_byte(
                    t@,
                    s,
                    12,
                ) == 0,
            forall|i: int| 13 * self.spec_adlib_instruments().len() <= i < 416 ==> t@[i] == 0,
    {
        let ghost fm = self.spec_adlib_instruments();
        let mut t = crate::format_c67::zero_bytes(416);
        let mut index: usize = 0;
        while index < self.adlib_instruments.len()
            invariant
                index <= self.adlib_instruments@.len(),
                t@.len() == 416,
                forall|s: int, o: int|
                    0 <= s < index && 0 <= o < 12 ==> #[trigger] filename_byte(t@, s, o)
                        == fm[s].filename@[o],
                forall|s: int| 0 <= s < index ==> #[trigger] filename_byte(t@, s, 12) == 0,
                forall|i: int| 0 <= i < 416 && 13 * index <= i ==> t@[i] == 0,
            decreases self.adlib_instruments@.len() - index,
        {
            let inst_idx = self.adlib_instruments[index];
            match &self.module.instruments[inst_idx] {
                S3MInstrument::Adlib(instrument) => {
                    proof {
                        assert(inst_wf(self.module.instruments@[inst_idx as int]));
                        assert(fm[index as int] == *instrument);
                    }
                    let mut k: usize = 0;
                    while k < 12
                        invariant
                            k <= 12,
                            t@.len() == 416,
                            forall|s: int, o: int|
                                0 <= s < index && 0 <= o < 12 ==> #[trigger] filename_byte(
                                    t@,
                                    s,
                                    o,
                                ) == fm[s].filename@[o],
                            forall|s: int|
                                0 <= s < index ==> #[trigger] filename_byte(t@, s, 12) == 0,
                            forall|o: int|
                                0 <= o < k ==> #[trigger] filename_byte(t@, index as int, o)
                                    == fm[index as int].filename@[o],
                            forall|i: int| 0 <= i < 416 && 13 * index + k <= i ==> t@[i] == 0,
                        decreases 12 - k,
                    {
                        let ghost t_pre = t@;
                        t[index * 13 + k] = instrument.filename[k];
                        proof {
                            assert forall|s: int, o: int|
                                0 <= s < index && 0 <= o < 12 implies #[trigger] filename_byte(
                                t@,
                                s,
                                o,
                            ) == fm[s].filename@[o] by {
                                assert(filename_byte(t_pre, s, o) == fm[s].filename@[o]);
                                assert(13 * s + o != 13 * index + k);
                            }
                            assert forall|s: int|
                                0 <= s < index implies #[trigger] filename_byte(t@, s, 12)
                                == 0 by {
                                assert(filename_byte(t_pre, s, 12) == 0);
                                assert(13 * s + 12 != 13 * index + k);
                            }
                            assert forall|o: int|
                                0 <= o < k + 1 implies #[trigger] filename_byte(
                                t@,
                                index as int,
                                o,
                            ) == fm[index as int].filename@[o] by {
                                if o < k {
                                    assert(filename_byte(t_pre, index as int, o)
                                        == fm[index as int].filename@[o]);
                                    assert(13 * index + o != 13 * index + k);
                                } else {
                                    assert(filename_byte(t@, index as int, o) == t@[13 * index
                                        + k]);
                                }
                            }
                        }
                        k = k + 1;
                    }
                },
                S3MInstrument::Sample(_) => {
                    proof {
                        assert(false);
                    }
                },
            }
            index = index + 1;
        }
        t
    }

    /// The 32-slot PCM metadata table: the surviving instruments'
    /// metadata in remapped order, empty slots beyond them.
    #[verifier::loop_isolation(false)]
    fn pcm_meta_table(&self) -> (t: Vec<C67SampleMetadata>)
        requires
            self.wf(),
            source_wf(self.spec_module()),
        ensures
            t@.len() == 32,
            forall|s: int|
                0 <= s < self.spec_pcm_instruments().len() ==> t@[s] == sample_meta_of(
                    self.spec_pcm_instruments()[s],
                ),
            forall|s: int|
                self.spec_pcm_instruments().len() <= s < 32 ==> t@[s]
                    == C67SampleMetadata::default_spec(),
    {
        let ghost pcm = self.spec_pcm_instruments();
        let mut t: Vec<C67SampleMetadata> = Vec::new();
        while t.len() < 32
            invariant
                t@.len() <= 32,
                forall|s: int| 0 <= s < t@.len() ==> t@[s] == C67SampleMetadata::default_spec(),
            decreases 32 - t@.len(),
        {
            t.push(C67SampleMetadata::default());
        }
        let mut index: usize = 0;
        while index < self.pcm_instruments.len()
            invariant
                index <= self.pcm_instruments@.len(),
                t@.len() == 32,
                forall|s: int| 0 <= s < index ==> t@[s] == sample_meta_of(pcm[s]),
                forall|s: int| index <= s < 32 ==> t@[s] == C67SampleMetadata::default_spec(),
            decreases self.pcm_instruments@.len() - index,
        {
            let inst_idx = self.pcm_instruments[index];
            match &self.module.instruments[inst_idx] {
                S3MInstrument::Sample(sample) => {
                    proof {
                        assert(inst_wf(self.module.instruments@[inst_idx as int]));
                        assert(pcm[index as int] == *sample);
                    }
                    let loop_start: u32 = if sample.flags & 1 != 0 {
                        sample.loop_begin
                    } else {
                        0
                    };
                    let loop_end: u32 = if sample.flags & 1 != 0 {
                        sample.loop_end
                    } else {
                        0xFFFFF
                    };
                    t[index] = C67SampleMetadata {
                        _unused: 0,
                        sample_length: sample.audio.len() as u32,
                        loop_start,
                        loop_end,
                    };
                },
                S3MInstrument::Adlib(_) => {
                    proof {
                        assert(false);
                    }
                },
            }
            index = index + 1;
        }
        t
    }

    /// The 32-slot FM metadata table: the surviving instruments'
    /// register bytes repacked in remapped order, empty slots beyond.
    #[verifier::loop_isolation(false)]
    fn adlib_meta_table(&self) -> (t: Vec<C67FMRegisters>)
        requires
            self.wf(),
        ensures
            t@.len() == 32,
            forall|s: int|
                0 <= s < self.spec_adlib_instruments().len() ==> t@[s] == fm_regs_of(
                    self.spec_adlib_instruments()[s],
                ),
            forall|s: int|
                self.spec_adlib_instruments().len() <= s < 32 ==> t@[s]
                    == C67FMRegisters::default_spec(),
    {
        let ghost fm = self.spec_adlib_instruments();
        let mut t: Vec<C67FMRegisters> = Vec::new();
        while t.len() < 32
            invariant
                t@.len() <= 32,
                forall|s: int| 0 <= s < t@.len() ==> t@[s] == C67FMRegisters::default_spec(),
            decreases 32 - t@.len(),
        {
            t.push(C67FMRegisters::default());
        }
        let mut index: usize = 0;
        while index < self.adlib_instruments.len()
            invariant
                index <= self.adlib_instruments@.len(),
                t@.len() == 32,
                forall|s: int| 0 <= s < index ==> t@[s] == fm_regs_of(fm[s]),
                forall|s: int| index <= s < 32 ==> t@[s] == C67FMRegisters::default_spec(),
            decreases self.adlib_instruments@.len() - index,
        {
            let inst_idx = self.adlib_instruments[index];
            match &self.module.instruments[inst_idx] {
                S3MInstrument::Adlib(instrument) => {
                    proof {
                        assert(fm[index as int] == *instrument);
                    }
                    let m2 = instrument.d02 >> 6;
                    let c2 = instrument.d03 >> 6;
                    t[index] = C67FMRegisters {
                        feedback_connection: instrument.d0a,
                        modulator_characteristics: instrument.d00,
                        modulator_scale_and_output_level: (instrument.d02 & 0x3F) | (((m2 & 1) << 7)
                            | ((m2 >> 1) << 6)),
                        modulator_attack_decay_level: instrument.d04,
                        modulator_sustain_release_level: instrument.d06,
                        modulator_wave_select: instrument.d08,
                        carrier_characteristics: instrument.d01,
                        carrier_scale_and_output_level: (instrument.d03 & 0x3F) | (((c2 & 1) << 7)
                            | ((c2 >> 1) << 6)),
                        carrier_attack_decay_level: instrument.d05,
                        carrier_sustain_release_level: instrument.d07,
                        carrier_wave_select: instrument.d09,
                    };
                },
                S3MInstrument::Sample(_) => {
                    proof {
                        assert(false);
                    }
                },
            }
            index = index + 1;
        }
        t
    }

    /// The 256-slot playlist: the order list with separators skipped,
    /// 0xFF beyond. Also reports whether entries past the 256th were
    /// dropped.
    #[verifier::loop_isolation(false)]
    fn build_playlist(&self) -> (r: (Vec<u8>, bool))
        ensures
            r.0@.len() == 256,
            forall|i: int|
                0 <= i < 256 ==> r.0@[i] == (if i < self.spec_nonsep().len() {
                    self.spec_nonsep()[i]
                } else {
                    255u8
                }),
            r.1 == (self.spec_nonsep().len() > 256),
    {
        let ghost orders = self.module.orders@;
        let mut playlist: Vec<u8> = Vec::new();
        while playlist.len() < 256
            invariant
                playlist@.len() <= 256,
                forall|i: int| 0 <= i < playlist@.len() ==> playlist@[i] == 255u8,
            decreases 256 - playlist@.len(),
        {
            playlist.push(255);
        }
        let mut count: usize = 0;
        let mut oi: usize = 0;
        while oi < self.module.orders.len()
            invariant
                oi <= orders.len(),
                count <= oi,
                playlist@.len() == 256,
                count == nonsep(orders, oi as int).len(),
                forall|i: int|
                    0 <= i < 256 ==> playlist@[i] == (if i < nonsep(orders, oi as int).len() {
                        nonsep(orders, oi as int)[i]
                    } else {
                        255u8
                    }),
            decreases orders.len() - oi,
        {
            let order = self.module.orders[oi];
            if order != 254 {
                if count < 256 {
                    playlist[count] = order;
                }
                count = count + 1;
            }
            proof {
                let pre = nonsep(orders, oi as int);
                let post = nonsep(orders, oi + 1);
                assert(forall|i: int| 0 <= i < pre.len() ==> post[i] == pre[i]);
            }
            oi = oi + 1;
        }
        (playlist, count > 256)
    }

    /// The pattern stream: the source patterns that fit the 128 slots,
    /// transcribed and serialized in order, then silent fillers, with
    /// each slot's byte offset and length. The warnings are every
    /// transcribed pattern's, then a capacity warning when source
    /// patterns were dropped.
    #[verifier::loop_isolation(false)]
    fn build_patterns(&self) -> (r: (Vec<u8>, Vec<u32>, Vec<u32>, Vec<ConvertWarning>))
        requires
            self.wf(),
            source_wf(self.spec_module()),
        ensures
            r.0@ == self.spec_pat_blob(128),
            r.1@.len() == 128,
            forall|i: int| 0 <= i < 128 ==> r.1@[i] == self.spec_pat_blob(i).len() as u32,
            r.2@.len() == 128,
            forall|i: int| 0 <= i < 128 ==> r.2@[i] == self.spec_pat_bytes(i).len() as u32,
            r.3@ == self.spec_pattern_phase_warnings(),
    {
        let mut warnings: Vec<ConvertWarning> = Vec::new();
        let mut pattern_data: Vec<u8> = Vec::new();
        let mut pattern_offsets = crate::format_c67::zero_words(128);
        let mut pattern_lengths = crate::format_c67::zero_words(128);
        let mut pattern_index: usize = 0;
        while pattern_index < self.module.patterns.len() && pattern_index < 128
            invariant
                pattern_index <= 128,
                pattern_index <= self.module.patterns@.len(),
                pattern_offsets@.len() == 128,
                pattern_lengths@.len() == 128,
                pattern_data@ == self.spec_pat_blob(pattern_index as int),
                pattern_data@.len() <= 6243 * pattern_index,
                forall|i: int|
                    0 <= i < pattern_index ==> pattern_offsets@[i] == self.spec_pat_blob(
                        i,
                    ).len() as u32,
                forall|i: int| pattern_index <= i < 128 ==> pattern_offsets@[i] == 0,
                forall|i: int|
                    0 <= i < pattern_index ==> pattern_lengths@[i] == self.spec_pat_bytes(
                        i,
                    ).len() as u32,
                forall|i: int| pattern_index <= i < 128 ==> pattern_lengths@[i] == 0,
                warnings@ == self.spec_pats_warnings(pattern_index as int),
            decreases self.module.patterns@.len() - pattern_index,
        {
            let pattern = &self.module.patterns[pattern_index];
            let res = self.convert_pattern(pattern);
            let converted = res.0;
            let mut pws = res.1;
            warnings.append(&mut pws);
            proof {
                assert(crate::format_s3m::grid_view(self.module.patterns@[pattern_index as int])
                    == self.spec_grids()[pattern_index as int]);
                lemma_pattern_commands_wf(
                    self.module.channel_settings@,
                    self.module.instruments@,
                    self.pcm_channel_remap_table@,
                    self.pcm_instrument_remap_table@,
                    self.adlib_instrument_remap_table@,
                    self.spec_grids()[pattern_index as int],
                );
                assert(converted@ == self.spec_pat_cmds(pattern_index as int));
            }
            let mut serialized = crate::format_c67::serialize_pattern(&converted);
            let serialized_pattern_length = serialized.len();
            let offset = pattern_data.len();
            pattern_data.append(&mut serialized);
            pattern_lengths[pattern_index] = serialized_pattern_length as u32;
            pattern_offsets[pattern_index] = offset as u32;
            pattern_index = pattern_index + 1;
        }
        if pattern_index < self.module.patterns.len() {
            warnings.push(ConvertWarning::PatternCapacity);
        }
        proof {
            assert(warnings@ =~= self.spec_pattern_phase_warnings());
        }
        let ghost all_w = warnings@;
        while pattern_index < 128
            invariant
                pattern_index <= 128,
                (if self.module.patterns@.len() < 128 {
                    self.module.patterns@.len() as int
                } else {
                    128int
                }) <= pattern_index,
                pattern_offsets@.len() == 128,
                pattern_lengths@.len() == 128,
                pattern_data@ == self.spec_pat_blob(pattern_index as int),
                pattern_data@.len() <= 6243 * pattern_index,
                forall|i: int|
                    0 <= i < pattern_index ==> pattern_offsets@[i] == self.spec_pat_blob(
                        i,
                    ).len() as u32,
                forall|i: int| pattern_index <= i < 128 ==> pattern_offsets@[i] == 0,
                forall|i: int|
                    0 <= i < pattern_index ==> pattern_lengths@[i] == self.spec_pat_bytes(
                        i,
                    ).len() as u32,
                forall|i: int| pattern_index <= i < 128 ==> pattern_lengths@[i] == 0,
                warnings@ == all_w,
            decreases 128 - pattern_index,
        {
            let filler = self.generate_empty_pattern();
            proof {
                assert(self.spec_pat_cmds(pattern_index as int) == filler_commands());
                crate::format_c67::lemma_commands_bytes_len(filler_commands());
            }
            let mut serialized = crate::format_c67::serialize_pattern(&filler);
            let serialized_pattern_length = serialized.len();
            let offset = pattern_data.len();
            pattern_data.append(&mut serialized);
            pattern_lengths[pattern_index] = serialized_pattern_length as u32;
            pattern_offsets[pattern_index] = offset as u32;
            pattern_index = pattern_index + 1;
        }
        (pattern_data, pattern_offsets, pattern_lengths, warnings)
    }

    /// The sample blob: every surviving PCM instrument's audio, reduced
    /// to 8-bit unsigned, concatenated in remapped order.
    #[verifier::loop_isolation(false)]
    fn build_sample_blob(&self) -> (r: Vec<u8>)
        requires
            self.wf(),
        ensures
            r@ == sample_blob(
                self.spec_pcm_instruments(),
                self.spec_pcm_instruments().len() as int,
            ),
    {
        let ghost pcm = self.spec_pcm_instruments();
        let mut sample_data: Vec<u8> = Vec::new();
        let mut index: usize = 0;
        while index < self.pcm_instruments.len()
            invariant
                index <= self.pcm_instruments@.len(),
                sample_data@ == sample_blob(pcm, index as int),
            decreases self.pcm_instruments@.len() - index,
        {
            let inst_idx = self.pcm_instruments[index];
            match &self.module.instruments[inst_idx] {
                S3MInstrument::Sample(sample) => {
                    proof {
                        assert(pcm[index as int] == *sample);
                    }
                    let mut k: usize = 0;
                    while k < sample.audio.len()
                        invariant
                            k <= sample.audio@.len(),
                            sample_data@ == sample_blob(pcm, index as int) + audio_bytes(
                                sample.audio@.take(k as int),
                            ),
                        decreases sample.audio@.len() - k,
                    {
                        let v = sample.audio[k];
                        let x: u32 = ((v as i32) + 32768) as u32;
                        sample_data.push((x / 256) as u8);
                        proof {
                            assert(x == (v as int) + 32768);
                            assert(audio_bytes(sample.audio@.take(k + 1)) =~= audio_bytes(
                                sample.audio@.take(k as int),
                            ).push(sample_to_unsigned(sample.audio@[k as int])));
                        }
                        k = k + 1;
                    }
                    proof {
                        assert(sample.audio@.take(sample.audio@.len() as int) =~= sample.audio@);
                    }
                },
                S3MInstrument::Adlib(_) => {
                    proof {
                        assert(false);
                    }
                },
            }
            index = index + 1;
        }
        sample_data
    }

    /// Assemble the complete target module: header scalars, the filename
    /// and metadata tables in remapped order, the playlist with
    /// separators skipped, the 128 pattern slots (transcribed source
    /// patterns first, silent fillers beyond them) with their offset and
    /// length tables, and the 8-bit unsigned sample blob.
    pub fn convert(&self) -> (r: (C67Module, Vec<ConvertWarning>))
        requires
            self.wf(),
            source_wf(self.spec_module()),
        ensures
            crate::format_c67::header_wf(r.0.header),
            r.0.header.speed == self.spec_module().initial_speed,
            r.0.header.loop_order == 0,
            forall|s: int, o: int|
                0 <= s < self.spec_pcm_instruments().len() && 0 <= o < 12 ==> #[trigger] filename_byte(
                    r.0.header.instrument_filenames@,
                    s,
                    o,
                ) == self.spec_pcm_instruments()[s].filename@[o],
            forall|s: int|
                0 <= s < self.spec_pcm_instruments().len() ==> #[trigger] filename_byte(
                    r.0.header.instrument_filenames@,
                    s,
                    12,
                ) == 0,
            forall|i: int|
                13 * self.spec_pcm_instruments().len() <= i < 416
                    ==> r.0.header.instrument_filenames@[i] == 0,
            forall|s: int, o: int|
                0 <= s < self.spec_adlib_instruments().len() && 0 <= o < 12
                    ==> #[trigger] filename_byte(r.0.header.adlib_instrument_filenames@, s, o)
                    == self.spec_adlib_instruments()[s].filename@[o],
            forall|s: int|
                0 <= s < self.spec_adlib_instruments().len() ==> #[trigger] filename_byte(
                    r.0.header.adlib_instrument_filenames@,
                    s,
                    12,
                ) == 0,
            forall|i: int|
                13 * self.spec_adlib_instruments().len() <= i < 416
                    ==> r.0.header.adlib_instrument_filenames@[i] == 0,
            forall|s: int|
                0 <= s < self.spec_pcm_instruments().len() ==> r.0.header.instrument_meta@[s]
                    == sample_meta_of(self.spec_pcm_instruments()[s]),
            forall|s: int|
                self.spec_pcm_instruments().len() <= s < 32 ==> r.0.header.instrument_meta@[s]
                    == C67SampleMetadata::default_spec(),
            forall|s: int|
                0 <= s < self.spec_adlib_instruments().len()
                    ==> r.0.header.adlib_instrument_meta@[s] == fm_regs_of(
                    self.spec_adlib_instruments()[s],
                ),
            forall|s: int|
                self.spec_adlib_instruments().len() <= s < 32
                    ==> r.0.header.adlib_instrument_meta@[s] == C67FMRegisters::default_spec(),
            forall|i: int|
                0 <= i < 256 ==> r.0.header.playlist@[i] == (if i < self.spec_nonsep().len() {
                    self.spec_nonsep()[i]
                } else {
                    255u8
                }),
            forall|i: int|
                0 <= i < 128 ==> r.0.header.pattern_pointers.list@[i] == self.spec_pat_blob(
                    i,
                ).len() as u32,
            forall|i: int|
                0 <= i < 128 ==> r.0.header.pattern_lengths.list@[i] == self.spec_pat_bytes(
                    i,
                ).len() as u32,
            r.0.pattern_data@ == self.spec_pat_blob(128),
            r.0.sample_data@ == sample_blob(
                self.spec_pcm_instruments(),
                self.spec_pcm_instruments().len() as int,
            ),
            r.1@ == self.spec_convert_warnings(),
    {
        let mut module = C67Module::default();
        let mut warnings: Vec<ConvertWarning> = Vec::new();

        module.header.speed = self.module.initial_speed;
        module.header.loop_order = 0;

        let pcm_instrument_filenames = self.pcm_filenames_table();
        let adlib_instrument_filenames = self.adlib_filenames_table();
        let pcm_instrument_meta = self.pcm_meta_table();
        let adlib_instrument_meta = self.adlib_meta_table();

        let playlist_res = self.build_playlist();
        if playlist_res.1 {
            warnings.push(ConvertWarning::PlaylistCapacity);
        }

        let pat_res = self.build_patterns();
        let mut pat_warnings = pat_res.3;
        warnings.append(&mut pat_warnings);

        let sample_data = self.build_sample_blob();

        module.header.instrument_filenames = pcm_instrument_filenames;
        module.header.instrument_meta = pcm_instrument_meta;
        module.header.adlib_instrument_filenames = adlib_instrument_filenames;
        module.header.adlib_instrument_meta = adlib_instrument_meta;
        module.header.playlist = playlist_res.0;
        module.header.pattern_lengths = Plist { list: pat_res.2 };
        module.header.pattern_pointers = Plist { list: pat_res.1 };
        module.pattern_data = pat_res.0;
        module.sample_data = sample_data;

        proof {
            assert(warnings@ =~= self.spec_convert_warnings());
        }
        (module, warnings)
    }
}

/// Runtime check of everything `convert` relies on of a source module,
/// for callers that did not obtain one from the decoder.
#[verifier::loop_isolation(false)]
pub fn source_ok(m: &S3MModule) -> (b: bool)
    ensures
        b == source_wf(*m),
{
    if m.channel_settings.len() != 32 {
        return false;
    }
    let mut i: usize = 0;
    while i < m.patterns.len()
        invariant
            i <= m.patterns@.len(),
            forall|j: int|
                0 <= j < i ==> crate::format_s3m::pattern_wf(#[trigger] m.patterns@[j]),
        decreases m.patterns@.len() - i,
    {
        let p = &m.patterns[i];
        if p.len() != 64 {
            return false;
        }
        let mut r: usize = 0;
        while r < 64
            invariant
                r <= 64,
                p@.len() == 64,
                forall|q: int| 0 <= q < r ==> crate::format_s3m::row_wf(#[trigger] p@[q]),
            decreases 64 - r,
        {
            if p[r].len() != 32 {
                return false;
            }
            r = r + 1;
        }
        i = i + 1;
    }
    let mut i: usize = 0;
    while i < m.instruments.len()
        invariant
            i <= m.instruments@.len(),
            forall|j: int|
                0 <= j < m.patterns@.len() ==> crate::format_s3m::pattern_wf(
                    #[trigger] m.patterns@[j],
                ),
            forall|j: int| 0 <= j < i ==> inst_wf(#[trigger] m.instruments@[j]),
        decreases m.instruments@.len() - i,
    {
        match &m.instruments[i] {
            S3MInstrument::Sample(s) => {
                if s.filename.len() != 12 {
                    return false;
                }
                if s.audio.len() as u64 > 0xFFFFFFFFu64 {
                    return false;
                }
            },
            S3MInstrument::Adlib(a) => {
                if a.filename.len() != 12 {
                    return false;
                }
            },
        }
        i = i + 1;
    }
    true
}

/// Law: channel remapping is a round trip in first-seen order. When the
/// enabled PCM-class channels carry pairwise distinct classes, the
/// channel whose ordinal among them (in ascending index order) is below
/// 4 is assigned exactly that ordinal as its target index, and every
/// enabled PCM channel past the fourth is absent from the table.
///
/// With duplicate classes the later channel overwrites the earlier
/// one's slot, so the distinctness hypothesis cannot be dropped: for
/// two enabled channels both of class 0, the table maps class 0 to the
/// second assignment.
pub proof fn lemma_channel_remap_order(s: Seq<u8>, j: int)
    requires
        s.len() == 32,
        0 <= j < 32,
        enabled_pcm(s[j]),
        forall|a: int, b: int|
            0 <= a < b < 32 && enabled_pcm(s[a]) && enabled_pcm(s[b]) ==> (s[a] & 0x7F) != (s[b]
                & 0x7F),
    ensures
        n_enabled_pcm(s, j) < 4 ==> chan_table(s, 32)[(s[j] & 0x7F) as int] == Some(
            n_enabled_pcm(s, j) as u8,
        ),
        n_enabled_pcm(s, j) >= 4 ==> chan_table(s, 32)[(s[j] & 0x7F) as int] is None,
{
    lemma_chan_table_entry(s, j, 32);
}

/// The table entry of one enabled PCM channel after scanning `n`
/// settings: its ordinal while it is below 4, absent otherwise.
proof fn lemma_chan_table_entry(s: Seq<u8>, j: int, n: int)
    requires
        s.len() == 32,
        0 <= j < 32,
        n <= 32,
        enabled_pcm(s[j]),
        forall|a: int, b: int|
            0 <= a < b < 32 && enabled_pcm(s[a]) && enabled_pcm(s[b]) ==> (s[a] & 0x7F) != (s[b]
                & 0x7F),
    ensures
        j < n && n_enabled_pcm(s, j) < 4 ==> chan_table(s, n)[(s[j] & 0x7F) as int] == Some(
            n_enabled_pcm(s, j) as u8,
        ),
        !(j < n && n_enabled_pcm(s, j) < 4) ==> chan_table(s, n)[(s[j] & 0x7F) as int] is None,
    decreases n,
{
    lemma_chan_table_bounded(s, n);
    lemma_n_enabled_pcm_nonneg(s, j);
    if n > 0 {
        lemma_chan_table_entry(s, j, n - 1);
        lemma_chan_table_bounded(s, n - 1);
        lemma_n_enabled_pcm_nonneg(s, n - 1);
    }
}

/// Law: a PCM class that no enabled channel carries is absent from the
/// channel remap table.
pub proof fn lemma_channel_remap_unused(s: Seq<u8>, c: int)
    requires
        s.len() == 32,
        0 <= c < 16,
        forall|j: int| 0 <= j < 32 && enabled_pcm(#[trigger] s[j]) ==> (s[j] & 0x7F) != c,
    ensures
        chan_table(s, 32)[c] is None,
{
    lemma_chan_table_unused(s, c, 32);
}

proof fn lemma_chan_table_unused(s: Seq<u8>, c: int, n: int)
    requires
        s.len() == 32,
        0 <= c < 16,
        n <= 32,
        forall|j: int| 0 <= j < 32 && enabled_pcm(#[trigger] s[j]) ==> (s[j] & 0x7F) != c,
    ensures
        chan_table(s, n)[c] is None,
    decreases n,
{
    lemma_chan_table_bounded(s, n);
    if n > 0 {
        lemma_chan_table_unused(s, c, n - 1);
        lemma_chan_table_bounded(s, n - 1);
    }
}

/// Law: instrument remapping keeps the first 32 instruments of a class
/// in first-seen order. The Sample slot whose ordinal among Sample
/// slots is below 32 survives at exactly that position of the PCM list;
/// once 32 Sample slots have been seen, the list is full at 32 entries
/// and later Sample slots are dropped.
pub proof fn lemma_pcm_instrument_cap(instrs: Seq<S3MInstrument>, n: int, j: int)
    requires
        0 <= j < n,
        is_sample(instrs[j]),
    ensures
        n_samples(instrs, j) < 32 ==> n_samples(instrs, j) < pcm_list(instrs, n).len()
            && pcm_list(instrs, n)[n_samples(instrs, j)] == sample_of(instrs[j]),
        n_samples(instrs, j) >= 32 ==> pcm_list(instrs, n).len() == 32,
    decreases n,
{
    lemma_counts_bound(instrs, n);
    lemma_counts_bound(instrs, j);
    if n > 0 {
        if j < n - 1 {
            lemma_pcm_instrument_cap(instrs, n - 1, j);
        }
        lemma_counts_bound(instrs, n - 1);
    }
}

/// Law: every pattern slot past the source's pattern count holds the
/// identical 3-byte silent filler, a whole-pattern delay and the end
/// marker.
pub proof fn lemma_filler_slots(c: Converter<'_>, i: int)
    requires
        c.spec_grids().len() <= i < 128,
    ensures
        c.spec_pat_cmds(i) == filler_commands(),
        c.spec_pat_bytes(i) == seq![0x40u8, 64u8, 0x60u8],
{
    reveal_with_fuel(crate::format_c67::commands_bytes, 4);
    let f = filler_commands();
    assert(f.drop_last() =~= seq![C67PatternCommand::Delay(64)]);
    assert(f.drop_last().drop_last() =~= Seq::<C67PatternCommand>::empty());
    assert(crate::format_c67::commands_bytes(f) =~= seq![0x40u8, 64u8, 0x60u8]);
}

/// Law: whenever a cell emits a note-on command, its 3-byte encoding
/// carries the cell's semitone (the note's low nibble) in the second
/// byte's low nibble, and the low three bits of the cell's octave (the
/// note's high nibble) in the second byte's high nibble.
pub proof fn lemma_note_encoding(
    settings: Seq<u8>,
    instrs: Seq<S3MInstrument>,
    ctab: Seq<Option<u8>>,
    ptab: Seq<Option<u8>>,
    atab: Seq<Option<u8>>,
    col: S3MColumn,
    class_byte: u8,
    saved0: u8,
)
    requires
        cell_step(settings, instrs, ctab, ptab, atab, col, class_byte, saved0).0.len() == 1,
        cell_step(settings, instrs, ctab, ptab, atab, col, class_byte, saved0).0[0] matches C67PatternCommand::PlayNote(p),
    ensures
        crate::format_c67::command_bytes(
            cell_step(settings, instrs, ctab, ptab, atab, col, class_byte, saved0).0[0],
        ).len() == 3,
        crate::format_c67::command_bytes(
            cell_step(settings, instrs, ctab, ptab, atab, col, class_byte, saved0).0[0],
        )[1] & 0xF == col.note & 0xF,
        (crate::format_c67::command_bytes(
            cell_step(settings, instrs, ctab, ptab, atab, col, class_byte, saved0).0[0],
        )[1] >> 4) & 7 == (col.note >> 4) & 7,
{
    let cmd = cell_step(settings, instrs, ctab, ptab, atab, col, class_byte, saved0).0[0];
    match cmd {
        C67PatternCommand::PlayNote(p) => {
            assert(p.note == col.note & 0xF && p.octave == (col.note >> 4) & 7);
            let iv = p.instrument;
            let ov = p.octave;
            let nv = p.note;
            let cn = col.note;
            let byte1: u8 = (((iv >> 5) & 1) << 7) | ((ov & 7) << 4) | (nv & 0xF);
            assert(byte1 & 0xF == cn & 0xF && (byte1 >> 4) & 7 == (cn >> 4) & 7) by (bit_vector)
                requires
                    nv == cn & 0xF,
                    ov == (cn >> 4) & 7,
                    byte1 == (((iv >> 5) & 1) << 7) | ((ov & 7) << 4) | (nv & 0xF),
            ;
            assert(crate::format_c67::command_bytes(cmd)[1] == byte1);
        },
        _ => {
            assert(false);
        },
    }
}

/// A source volume divided by 4 and clamped to the 4-bit range.
fn vol_nibble_exec(v: u8) -> (r: u8)
    ensures
        r == vol_nibble(v),
{
    let q = v / 4;
    if q > 15 {
        15
    } else {
        q
    }
}

/// A table of `n` empty slots.
fn none_table(n: usize) -> (r: Vec<Option<u8>>)
    ensures
        r@ == Seq::new(n as nat, |i: int| None::<u8>),
{
    let mut r: Vec<Option<u8>> = Vec::new();
    while r.len() < n
        invariant
            r@.len() <= n,
            forall|i: int| 0 <= i < r@.len() ==> r@[i] is None,
        decreases n - r@.len(),
    {
        r.push(None);
    }
    proof {
        assert(r@ =~= Seq::new(n as nat, |i: int| None::<u8>));
    }
    r
}

} // verus!

