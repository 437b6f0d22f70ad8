//! Target-format data model and serializer.
//!
//! The C67 format is a fixed-layout header (speed, loop order, two 32-slot
//! instrument filename tables, two 32-slot metadata tables, a 256-entry
//! playlist and two 128-entry pattern tables) followed by the concatenated
//! pattern bytecode and the 8-bit sample blob. Serialization is a pure
//! data-to-bytes transformation with no decision logic.

use vstd::prelude::*;

verus! {

/// A 128-entry table of 32-bit values (pattern offsets or lengths),
/// serialized as 128 little-endian words.
pub struct Plist {
    pub list: Vec<u32>,
}

/// The fixed-layout C67 header.
pub struct C67ModuleHeader {
    pub speed: u8,
    pub loop_order: u8,
    pub instrument_filenames: Vec<u8>,
    pub instrument_meta: Vec<C67SampleMetadata>,
    pub adlib_instrument_filenames: Vec<u8>,
    pub adlib_instrument_meta: Vec<C67FMRegisters>,
    pub playlist: Vec<u8>,
    pub pattern_pointers: Plist,
    pub pattern_lengths: Plist,
}

/// A complete target module: header, pattern bytecode blob, sample blob.
pub struct C67Module {
    pub header: C67ModuleHeader,
    pub pattern_data: Vec<u8>,
    pub sample_data: Vec<u8>,
}

/// Metadata for one PCM instrument slot, serialized as four
/// little-endian 32-bit words.
#[derive(Clone, Copy, PartialEq, Eq, Structural, Debug)]
pub struct C67SampleMetadata {
    pub _unused: u32,
    pub sample_length: u32,
    pub loop_start: u32,
    pub loop_end: u32,
}

/// The 11 packed FM register bytes of one FM instrument slot, serialized
/// in field order.
#[derive(Clone, Copy, PartialEq, Eq, Structural, Debug)]
pub struct C67FMRegisters {
    pub feedback_connection: u8,
    pub modulator_characteristics: u8,
    pub modulator_scale_and_output_level: u8,
    pub modulator_attack_decay_level: u8,
    pub modulator_sustain_release_level: u8,
    pub modulator_wave_select: u8,
    pub carrier_characteristics: u8,
    pub carrier_scale_and_output_level: u8,
    pub carrier_attack_decay_level: u8,
    pub carrier_sustain_release_level: u8,
    pub carrier_wave_select: u8,
}

/// A target playback voice: one of 4 PCM slots or one of the FM slots.
#[derive(Clone, Copy, PartialEq, Eq, Structural, Debug)]
pub enum Channel {
    PCM(u8),
    FM(u8),
}

/// One note-on event of the pattern bytecode.
#[derive(Clone, Copy, PartialEq, Eq, Structural, Debug)]
pub struct PlayNoteCommand {
    pub channel: Channel,
    pub octave: u8,
    pub note: u8,
    pub instrument: u8,
    pub volume: u8,
}

/// One volume-change event of the pattern bytecode.
#[derive(Clone, Copy, PartialEq, Eq, Structural, Debug)]
pub struct SetVolumeCommand {
    pub channel: Channel,
    pub volume: u8,
}

/// One entry of the variable-length pattern bytecode.
#[derive(Clone, Copy, PartialEq, Eq, Structural, Debug)]
pub enum C67PatternCommand {
    PlayNote(PlayNoteCommand),
    SetVolume(SetVolumeCommand),
    Delay(u8),
    End,
}

/// Little-endian encoding of a 32-bit word.
pub open spec fn le32(x: u32) -> Seq<u8> {
    seq![
        (x & 0xFF) as u8,
        ((x >> 8) & 0xFF) as u8,
        ((x >> 16) & 0xFF) as u8,
        ((x >> 24) & 0xFF) as u8,
    ]
}

/// One PCM metadata slot: four little-endian words in field order.
pub open spec fn sample_meta_bytes(m: C67SampleMetadata) -> Seq<u8> {
    le32(m._unused) + le32(m.sample_length) + le32(m.loop_start) + le32(m.loop_end)
}

/// The PCM metadata table: every slot's encoding, in order.
pub open spec fn meta_table_bytes(s: Seq<C67SampleMetadata>) -> Seq<u8>
    decreases s.len(),
{
    if s.len() == 0 {
        Seq::empty()
    } else {
        meta_table_bytes(s.drop_last()) + sample_meta_bytes(s.last())
    }
}

/// One FM metadata slot: the 11 register bytes in field order.
pub open spec fn fm_regs_bytes(r: C67FMRegisters) -> Seq<u8> {
    seq![
        r.feedback_connection,
        r.modulator_characteristics,
        r.modulator_scale_and_output_level,
        r.modulator_attack_decay_level,
        r.modulator_sustain_release_level,
        r.modulator_wave_select,
        r.carrier_characteristics,
        r.carrier_scale_and_output_level,
        r.carrier_attack_decay_level,
        r.carrier_sustain_release_level,
        r.carrier_wave_select,
    ]
}

/// The FM metadata table: every slot's encoding, in order.
pub open spec fn fm_table_bytes(s: Seq<C67FMRegisters>) -> Seq<u8>
    decreases s.len(),
{
    if s.len() == 0 {
        Seq::empty()
    } else {
        fm_table_bytes(s.drop_last()) + fm_regs_bytes(s.last())
    }
}

/// A word table: each entry as a little-endian word, in order.
pub open spec fn words_bytes(s: Seq<u32>) -> Seq<u8>
    decreases s.len(),
{
    if s.len() == 0 {
        Seq::empty()
    } else {
        words_bytes(s.drop_last()) + le32(s.last())
    }
}

/// A well-formed header has every fixed-size table at its declared size:
/// two 13-byte-stride filename tables of 32 slots, two 32-slot metadata
/// tables, a 256-entry playlist and two 128-entry pattern tables.
pub open spec fn header_wf(h: C67ModuleHeader) -> bool {
    &&& h.instrument_filenames@.len() == 416
    &&& h.instrument_meta@.len() == 32
    &&& h.adlib_instrument_filenames@.len() == 416
    &&& h.adlib_instrument_meta@.len() == 32
    &&& h.playlist@.len() == 256
    &&& h.pattern_pointers.list@.len() == 128
    &&& h.pattern_lengths.list@.len() == 128
}

/// Runtime check of a header's fixed table sizes, for callers that
/// assembled one by hand.
pub fn header_ok(h: &C67ModuleHeader) -> (b: bool)
    ensures
        b == header_wf(*h),
{
    h.instrument_filenames.len() == 416 && h.instrument_meta.len() == 32
        && h.adlib_instrument_filenames.len() == 416 && h.adlib_instrument_meta.len() == 32
        && h.playlist.len() == 256 && h.pattern_pointers.list.len() == 128
        && h.pattern_lengths.list.len() == 128
}

/// The exact byte layout of a serialized module: header fields and tables
/// in declaration order, then the pattern blob, then the sample blob,
/// with no padding anywhere.
pub open spec fn module_bytes(m: C67Module) -> Seq<u8> {
    seq![m.header.speed, m.header.loop_order] + m.header.instrument_filenames@
        + meta_table_bytes(m.header.instrument_meta@) + m.header.adlib_instrument_filenames@
        + fm_table_bytes(m.header.adlib_instrument_meta@) + m.header.playlist@ + words_bytes(
        m.header.pattern_pointers.list@,
    ) + words_bytes(m.header.pattern_lengths.list@) + m.pattern_data@ + m.sample_data@
}

/// Append the little-endian encoding of one word.
fn push_le32(data: &mut Vec<u8>, x: u32)
    ensures
        final(data)@ == old(data)@ + le32(x),
{
    data.push((x & 0xFF) as u8);
    data.push(((x >> 8) & 0xFF) as u8);
    data.push(((x >> 16) & 0xFF) as u8);
    data.push(((x >> 24) & 0xFF) as u8);
    assert(data@ =~= old(data)@ + le32(x));
}

/// Append a copy of `src`.
fn extend_bytes(data: &mut Vec<u8>, src: &Vec<u8>)
    ensures
        final(data)@ == old(data)@ + src@,
{
    let mut i: usize = 0;
    while i < src.len()
        invariant
            i <= src@.len(),
            data@ == old(data)@ + src@.take(i as int),
        decreases src@.len() - i,
    {
        data.push(src[i]);
        proof {
            assert(old(data)@ + src@.take(i + 1) =~= (old(data)@ + src@.take(i as int)).push(
                src@[i as int],
            ));
        }
        i = i + 1;
    }
    proof {
        assert(src@.take(src@.len() as int) =~= src@);
    }
}

impl C67Module {
    /// Serialize the module into its exact on-disk byte layout.
    pub fn serialize(&self) -> (r: Vec<u8>)
        requires
            header_wf(self.header),
        ensures
            r@ == module_bytes(*self),
    {
        let mut data: Vec<u8> = Vec::new();

        data.push(self.header.speed);
        data.push(self.header.loop_order);
        assert(data@ =~= seq![self.header.speed, self.header.loop_order]);
        extend_bytes(&mut data, &self.header.instrument_filenames);

        let mut i: usize = 0;
        while i < self.header.instrument_meta.len()
            invariant
                i <= self.header.instrument_meta@.len(),
                data@ == seq![self.header.speed, self.header.loop_order]
                    + self.header.instrument_filenames@ + meta_table_bytes(
                    self.header.instrument_meta@.take(i as int),
                ),
            decreases self.header.instrument_meta@.len() - i,
        {
            let m = &self.header.instrument_meta[i];
            push_le32(&mut data, m._unused);
            push_le32(&mut data, m.sample_length);
            push_le32(&mut data, m.loop_start);
            push_le32(&mut data, m.loop_end);
            proof {
                assert(self.header.instrument_meta@.take(i + 1).drop_last()
                    =~= self.header.instrument_meta@.take(i as int));
            }
            i = i + 1;
        }
        proof {
            assert(self.header.instrument_meta@.take(self.header.instrument_meta@.len() as int)
                =~= self.header.instrument_meta@);
        }

        extend_bytes(&mut data, &self.header.adlib_instrument_filenames);

        let ghost prefix_fm: Seq<u8> = data@;
        let mut i: usize = 0;
        while i < self.header.adlib_instrument_meta.len()
            invariant
                i <= self.header.adlib_instrument_meta@.len(),
                data@ == prefix_fm + fm_table_bytes(
                    self.header.adlib_instrument_meta@.take(i as int),
                ),
            decreases self.header.adlib_instrument_meta@.len() - i,
        {
            let r = &self.header.adlib_instrument_meta[i];
            data.push(r.feedback_connection);
            data.push(r.modulator_characteristics);
            data.push(r.modulator_scale_and_output_level);
            data.push(r.modulator_attack_decay_level);
            data.push(r.modulator_sustain_release_level);
            data.push(r.modulator_wave_select);
            data.push(r.carrier_characteristics);
            data.push(r.carrier_scale_and_output_level);
            data.push(r.carrier_attack_decay_level);
            data.push(r.carrier_sustain_release_level);
            data.push(r.carrier_wave_select);
            proof {
                assert(self.header.adlib_instrument_meta@.take(i + 1).drop_last()
                    =~= self.header.adlib_instrument_meta@.take(i as int));
                assert(data@ =~= prefix_fm + fm_table_bytes(
                    self.header.adlib_instrument_meta@.take(i + 1),
                ));
            }
            i = i + 1;
        }
        proof {
            assert(self.header.adlib_instrument_meta@.take(
                self.header.adlib_instrument_meta@.len() as int,
            ) =~= self.header.adlib_instrument_meta@);
        }

        extend_bytes(&mut data, &self.header.playlist);
        extend_words(&mut data, &self.header.pattern_pointers.list);
        extend_words(&mut data, &self.header.pattern_lengths.list);
        extend_bytes(&mut data, &self.pattern_data);
        extend_bytes(&mut data, &self.sample_data);

        assert(data@ =~= module_bytes(*self));
        data
    }
}

/// Append the little-endian encoding of a word table.
fn extend_words(data: &mut Vec<u8>, src: &Vec<u32>)
    ensures
        final(data)@ == old(data)@ + words_bytes(src@),
{
    let mut i: usize = 0;
    while i < src.len()
        invariant
            i <= src@.len(),
            data@ == old(data)@ + words_bytes(src@.take(i as int)),
        decreases src@.len() - i,
    {
        push_le32(data, src[i]);
        proof {
            assert(src@.take(i + 1).drop_last() =~= src@.take(i as int));
        }
        i = i + 1;
    }
    proof {
        assert(src@.take(src@.len() as int) =~= src@);
    }
}

/// A byte vector of `n` zeros.
pub(crate) fn zero_bytes(n: usize) -> (r: Vec<u8>)
    ensures
        r@.len() == n,
        forall|i: int| 0 <= i < n ==> r@[i] == 0u8,
{
    let mut r: Vec<u8> = Vec::new();
    while r.len() < n
        invariant
            r@.len() <= n,
            forall|i: int| 0 <= i < r@.len() ==> r@[i] == 0u8,
        decreases n - r@.len(),
    {
        r.push(0);
    }
    r
}

/// A word vector of `n` zeros.
pub(crate) fn zero_words(n: usize) -> (r: Vec<u32>)
    ensures
        r@.len() == n,
        forall|i: int| 0 <= i < n ==> r@[i] == 0u32,
{
    let mut r: Vec<u32> = Vec::new();
    while r.len() < n
        invariant
            r@.len() <= n,
            forall|i: int| 0 <= i < r@.len() ==> r@[i] == 0u32,
        decreases n - r@.len(),
    {
        r.push(0);
    }
    r
}

/// An all-zero 128-entry word table.
pub open spec fn plist_zero(p: Plist) -> bool {
    &&& p.list@.len() == 128
    &&& forall|i: int| 0 <= i < 128 ==> p.list@[i] == 0u32
}

impl Default for Plist {
    fn default() -> (r: Self)
        ensures
            plist_zero(r),
    {
        Plist { list: zero_words(128) }
    }
}

impl C67SampleMetadata {
    /// The empty PCM slot: zero length, loop end at the 20-bit maximum.
    pub open spec fn default_spec() -> C67SampleMetadata {
        C67SampleMetadata { _unused: 0, sample_length: 0, loop_start: 0, loop_end: 0xFFFFF }
    }
}

impl Default for C67SampleMetadata {
    fn default() -> (r: Self)
        ensures
            r == C67SampleMetadata::default_spec(),
    {
        C67SampleMetadata { _unused: 0, sample_length: 0, loop_start: 0, loop_end: 0xFFFFF }
    }
}

impl C67FMRegisters {
    /// The empty FM slot: all registers zero.
    pub open spec fn default_spec() -> C67FMRegisters {
        C67FMRegisters {
            feedback_connection: 0,
            modulator_characteristics: 0,
            modulator_scale_and_output_level: 0,
            modulator_attack_decay_level: 0,
            modulator_sustain_release_level: 0,
            modulator_wave_select: 0,
            carrier_characteristics: 0,
            carrier_scale_and_output_level: 0,
            carrier_attack_decay_level: 0,
            carrier_sustain_release_level: 0,
            carrier_wave_select: 0,
        }
    }
}

impl Default for C67FMRegisters {
    fn default() -> (r: Self)
        ensures
            r == C67FMRegisters::default_spec(),
    {
        C67FMRegisters {
            feedback_connection: 0,
            modulator_characteristics: 0,
            modulator_scale_and_output_level: 0,
            modulator_attack_decay_level: 0,
            modulator_sustain_release_level: 0,
            modulator_wave_select: 0,
            carrier_characteristics: 0,
            carrier_scale_and_output_level: 0,
            carrier_attack_decay_level: 0,
            carrier_sustain_release_level: 0,
            carrier_wave_select: 0,
        }
    }
}

/// The freshly constructed header: zero scalars, zeroed filename tables
/// and playlist, empty metadata slots, zeroed pattern tables.
pub open spec fn header_default(h: C67ModuleHeader) -> bool {
    &&& h.speed == 0
    &&& h.loop_order == 0
    &&& h.instrument_filenames@.len() == 416
    &&& forall|i: int| 0 <= i < 416 ==> h.instrument_filenames@[i] == 0u8
    &&& h.instrument_meta@.len() == 32
    &&& forall|i: int|
        0 <= i < 32 ==> h.instrument_meta@[i] == C67SampleMetadata::default_spec()
    &&& h.adlib_instrument_filenames@.len() == 416
    &&& forall|i: int| 0 <= i < 416 ==> h.adlib_instrument_filenames@[i] == 0u8
    &&& h.adlib_instrument_meta@.len() == 32
    &&& forall|i: int|
        0 <= i < 32 ==> h.adlib_instrument_meta@[i] == C67FMRegisters::default_spec()
    &&& h.playlist@.len() == 256
    &&& forall|i: int| 0 <= i < 256 ==> h.playlist@[i] == 0u8
    &&& plist_zero(h.pattern_pointers)
    &&& plist_zero(h.pattern_lengths)
}

impl Default for C67ModuleHeader {
    fn default() -> (r: Self)
        ensures
            header_default(r),
            header_wf(r),
    {
        let mut instrument_meta: Vec<C67SampleMetadata> = Vec::new();
        while instrument_meta.len() < 32
            invariant
                instrument_meta@.len() <= 32,
                forall|i: int|
                    0 <= i < instrument_meta@.len() ==> instrument_meta@[i]
                        == C67SampleMetadata::default_spec(),
            decreases 32 - instrument_meta@.len(),
        {
            instrument_meta.push(C67SampleMetadata::default());
        }
        let mut adlib_instrument_meta: Vec<C67FMRegisters> = Vec::new();
        while adlib_instrument_meta.len() < 32
            invariant
                adlib_instrument_meta@.len() <= 32,
                forall|i: int|
                    0 <= i < adlib_instrument_meta@.len() ==> adlib_instrument_meta@[i]
                        == C67FMRegisters::default_spec(),
            decreases 32 - adlib_instrument_meta@.len(),
        {
            adlib_instrument_meta.push(C67FMRegisters::default());
        }
        C67ModuleHeader {
            speed: 0,
            loop_order: 0,
            instrument_filenames: zero_bytes(416),
            instrument_meta,
            adlib_instrument_filenames: zero_bytes(416),
            adlib_instrument_meta,
            playlist: zero_bytes(256),
            pattern_pointers: Plist::default(),
            pattern_lengths: Plist::default(),
        }
    }
}

impl Default for C67Module {
    fn default() -> (r: Self)
        ensures
            header_default(r.header),
            header_wf(r.header),
            r.pattern_data@ == Seq::<u8>::empty(),
            r.sample_data@ == Seq::<u8>::empty(),
    {
        C67Module {
            header: C67ModuleHeader::default(),
            pattern_data: Vec::new(),
            sample_data: Vec::new(),
        }
    }
}

/// The channel selector byte fits in `u8`: FM selectors are offset by 4
/// (note-on) or 0x24 (volume), PCM volume selectors by 0x20.
pub open spec fn command_wf(c: C67PatternCommand) -> bool {
    match c {
        C67PatternCommand::PlayNote(p) => match p.channel {
            Channel::PCM(_) => true,
            Channel::FM(n) => n <= 251,
        },
        C67PatternCommand::SetVolume(s) => match s.channel {
            Channel::PCM(n) => n <= 223,
            Channel::FM(n) => n <= 219,
        },
        C67PatternCommand::Delay(_) => true,
        C67PatternCommand::End => true,
    }
}

/// The exact encoding of one bytecode entry: note-on is 3 bytes
/// (selector, `instrument bit 5 | octave | semitone`, `instrument low
/// nibble | volume nibble`), volume is 2 bytes, delay is `0x40, rows`,
/// end of pattern is the single byte `0x60`.
pub open spec fn command_bytes(c: C67PatternCommand) -> Seq<u8> {
    match c {
        C67PatternCommand::PlayNote(p) => {
            let sel: u8 = match p.channel {
                Channel::PCM(n) => n,
                Channel::FM(n) => (4 + n) as u8,
            };
            let byte1: u8 = (((p.instrument >> 5) & 1) << 7) | ((p.octave & 7) << 4) | (p.note
                & 0xF);
            let byte2: u8 = ((p.instrument & 0xF) << 4) | (p.volume & 0xF);
            seq![sel, byte1, byte2]
        },
        C67PatternCommand::SetVolume(s) => {
            let sel: u8 = match s.channel {
                Channel::PCM(n) => (0x20 + n) as u8,
                Channel::FM(n) => (0x24 + n) as u8,
            };
            seq![sel, (s.volume & 0xF) as u8]
        },
        C67PatternCommand::Delay(rows) => seq![0x40u8, rows],
        C67PatternCommand::End => seq![0x60u8],
    }
}

impl C67PatternCommand {
    /// Serialize one bytecode entry to its exact byte encoding.
    pub fn serialize(&self) -> (r: Vec<u8>)
        requires
            command_wf(*self),
        ensures
            r@ == command_bytes(*self),
    {
        let mut data: Vec<u8> = Vec::new();

        match self {
            C67PatternCommand::PlayNote(command) => {
                match command.channel {
                    Channel::PCM(num) => data.push(num),
                    Channel::FM(num) => data.push(4 + num),
                }
                let byte1: u8 = (((command.instrument >> 5) & 1) << 7) | ((command.octave & 7)
                    << 4) | (command.note & 0xF);
                let byte2: u8 = ((command.instrument & 0xF) << 4) | (command.volume & 0xF);
                data.push(byte1);
                data.push(byte2);
            },
            C67PatternCommand::SetVolume(command) => {
                match command.channel {
                    Channel::PCM(num) => data.push(0x20 + num),
                    Channel::FM(num) => data.push(0x24 + num),
                }
                data.push(command.volume & 0xF);
            },
            C67PatternCommand::Delay(rows) => {
                data.push(0x40);
                data.push(*rows);
            },
            C67PatternCommand::End => {
                data.push(0x60);
            },
        }

        assert(data@ =~= command_bytes(*self));
        data
    }
}

/// The encoding of a whole command sequence: each entry's bytes in order.
pub open spec fn commands_bytes(cmds: Seq<C67PatternCommand>) -> Seq<u8>
    decreases cmds.len(),
{
    if cmds.len() == 0 {
        Seq::empty()
    } else {
        commands_bytes(cmds.drop_last()) + command_bytes(cmds.last())
    }
}

/// Every command encodes to at most 3 bytes.
pub proof fn lemma_commands_bytes_len(cmds: Seq<C67PatternCommand>)
    ensures
        commands_bytes(cmds).len() <= 3 * cmds.len(),
    decreases cmds.len(),
{
    if cmds.len() > 0 {
        lemma_commands_bytes_len(cmds.drop_last());
    }
}

/// Serialize a command sequence into the concatenation of each
/// command's encoding, in order.
pub fn serialize_pattern(commands: &Vec<C67PatternCommand>) -> (r: Vec<u8>)
    requires
        forall|i: int| 0 <= i < commands@.len() ==> command_wf(#[trigger] commands@[i]),
    ensures
        r@ == commands_bytes(commands@),
{
    let mut data: Vec<u8> = Vec::new();

    let mut idx: usize = 0;
    while idx < commands.len()
        invariant
            idx <= commands@.len(),
            forall|i: int| 0 <= i < commands@.len() ==> command_wf(#[trigger] commands@[i]),
            data@ == commands_bytes(commands@.take(idx as int)),
        decreases commands@.len() - idx,
    {
        let mut piece = commands[idx].serialize();
        data.append(&mut piece);
        proof {
            assert(commands@.take(idx + 1).drop_last() =~= commands@.take(idx as int));
        }
        idx = idx + 1;
    }
    proof {
        assert(commands@.take(commands@.len() as int) =~= commands@);
    }
    data
}

} // verus!
