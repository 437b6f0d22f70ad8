//! Source-format data model and decoder.
//!
//! An S3M module is decoded from a plain byte buffer into the structures
//! below; all multi-byte header scalars are little-endian in the file.

use vstd::prelude::*;

verus! {

/// Fatal decoding failures; a failed decode produces no partial module.
#[derive(Clone, Copy, PartialEq, Eq, Structural, Debug)]
pub enum DecodeError {
    /// The stream does not carry the expected magic value.
    Format,
    /// The module uses packed (compressed) sample data.
    CompressionUnsupported,
    /// The stream ends before the structure it promises.
    Truncated,
}

/// A decoded source module. Scalar fields mirror the on-disk header;
/// `instruments` and `patterns` hold the materialized content.
pub struct S3MModule {
    pub song_name: Vec<u8>,
    pub _unused: u32,
    pub order_amount: u16,
    pub sample_amount: u16,
    pub pattern_amount: u16,
    pub flags: u16,
    pub tracker_metadata: u16,
    pub ffi: u16,
    pub _scrm: u32,
    pub global_volume: u8,
    pub initial_speed: u8,
    pub initial_tempo: u8,
    pub mixing_volume: u8,
    pub ramping: u8,
    pub default_panning: u8,
    pub _unused2: Vec<u8>,
    pub special: u16,
    pub channel_settings: Vec<u8>,
    pub orders: Vec<u8>,

    pub sample_offsets: Vec<u16>,
    pub pattern_offsets: Vec<u16>,
    pub channel_panning: Vec<u8>,

    pub instruments: Vec<S3MInstrument>,
    pub patterns: Vec<S3MPattern>,
}

/// One slot of the instrument table: a PCM sample or an FM voice.
pub enum S3MInstrument {
    Sample(S3MSample),
    Adlib(S3MAdlibInstrument),
}

/// A PCM instrument: header fields plus the decoded signed 16-bit audio.
#[verifier::ext_equal]
pub struct S3MSample {
    pub sample_type: u8,
    pub filename: Vec<u8>,
    pub memseg: Vec<u8>,
    pub length: u32,
    pub loop_begin: u32,
    pub loop_end: u32,
    pub volume: u8,
    pub _unused: u8,
    pub packed: u8,
    pub flags: u8,
    pub c4speed: u32,
    pub _unused2: u32,
    pub int_gp: u16,
    pub sample_name: Vec<u8>,
    pub _scrs: Vec<u8>,

    pub audio: Vec<i16>,
}

/// An FM instrument: the twelve raw register bytes `d00..d0b` plus metadata.
#[verifier::ext_equal]
pub struct S3MAdlibInstrument {
    pub instrument_type: u8,
    pub filename: Vec<u8>,
    pub _unused: Vec<u8>,
    pub d00: u8,
    pub d01: u8,
    pub d02: u8,
    pub d03: u8,
    pub d04: u8,
    pub d05: u8,
    pub d06: u8,
    pub d07: u8,
    pub d08: u8,
    pub d09: u8,
    pub d0a: u8,
    pub d0b: u8,
    pub volume: u8,
    pub disk: u8,
    pub _unused2: u16,
    pub c4freq: u32,
    pub _unused3: Vec<u8>,
    pub sample_name: Vec<u8>,
    pub _scri: Vec<u8>,
}

/// One pattern cell: note, instrument reference, volume override and the
/// (ignored) effect pair. Note 255 = empty, 254 = note-off, otherwise
/// `octave<<4 | semitone`. Volume 255 = use the instrument default.
#[derive(Clone, Copy, PartialEq, Eq, Structural, Debug)]
pub struct S3MColumn {
    pub note: u8,
    pub instrument: u8,
    pub vol: u8,
    pub effect: u8,
    pub effect_value: u8,
}

/// One pattern row: a cell for each of the 32 source channels.
pub type S3MRow = Vec<S3MColumn>;

/// One pattern: a fixed 64-row grid.
pub type S3MPattern = Vec<S3MRow>;

impl S3MColumn {
    /// The empty cell: no note, no instrument, no volume override.
    pub open spec fn default_spec() -> S3MColumn {
        S3MColumn { note: 255, instrument: 0, vol: 255, effect: 0, effect_value: 0 }
    }
}

impl Default for S3MColumn {
    fn default() -> (r: Self)
        ensures
            r == S3MColumn::default_spec(),
    {
        S3MColumn { note: 255, instrument: 0, vol: 255, effect: 0, effect_value: 0 }
    }
}

/// The two-bit field `x` with its bits swapped, placed in the top two
/// bits of a byte (bit 0 moves to bit 7, bit 1 to bit 6).
pub open spec fn rev2_high(x: u8) -> u8 {
    ((x & 1) << 7) | ((x >> 1) << 6)
}

/// The engine-neutral unpacking of the twelve raw FM register bytes.
pub open spec fn universal_of(s: S3MAdlibInstrument) -> crate::adlib::AdlibInstrument {
    crate::adlib::AdlibInstrument {
        modulator: crate::adlib::AdlibParams {
            freq_multiplier: s.d00 & 0xF,
            scale_envelope: s.d00 & 0x10 != 0,
            enable_sustain: s.d00 & 0x20 != 0,
            vibrato: s.d00 & 0x40 != 0,
            tremolo: s.d00 & 0x80 != 0,
            scale_level: rev2_high((s.d02 & 0xC0) >> 6),
            output_level: s.d02 & 0x3F,
            attack: s.d04 >> 4,
            decay: s.d04 & 0xF,
            sustain: s.d06 >> 4,
            release: s.d06 & 0xF,
            wave: s.d08,
            feedback: s.d0a >> 1,
            connection: s.d0a & 1 != 0,
        },
        carrier: crate::adlib::AdlibParams {
            freq_multiplier: s.d01 & 0xF,
            scale_envelope: s.d01 & 0x10 != 0,
            enable_sustain: s.d01 & 0x20 != 0,
            vibrato: s.d01 & 0x40 != 0,
            tremolo: s.d01 & 0x80 != 0,
            scale_level: rev2_high((s.d03 & 0xC0) >> 6),
            output_level: s.d03 & 0x3F,
            attack: s.d05 >> 4,
            decay: s.d05 & 0xF,
            sustain: s.d07 >> 4,
            release: s.d07 & 0xF,
            wave: s.d09,
            feedback: 0,
            connection: false,
        },
    }
}

impl S3MAdlibInstrument {
    /// Unpack the raw register bytes into the engine-neutral description.
    pub fn to_universal(&self) -> (r: crate::adlib::AdlibInstrument)
        ensures
            r == universal_of(*self),
    {
        let m2 = (self.d02 & 0xC0) >> 6;
        let c2 = (self.d03 & 0xC0) >> 6;
        crate::adlib::AdlibInstrument {
            modulator: crate::adlib::AdlibParams {
                freq_multiplier: self.d00 & 0xF,
                scale_envelope: self.d00 & 0x10 != 0,
                enable_sustain: self.d00 & 0x20 != 0,
                vibrato: self.d00 & 0x40 != 0,
                tremolo: self.d00 & 0x80 != 0,
                scale_level: ((m2 & 1) << 7) | ((m2 >> 1) << 6),
                output_level: self.d02 & 0x3F,
                attack: self.d04 >> 4,
                decay: self.d04 & 0xF,
                sustain: self.d06 >> 4,
                release: self.d06 & 0xF,
                wave: self.d08,
                feedback: self.d0a >> 1,
                connection: self.d0a & 1 != 0,
            },
            carrier: crate::adlib::AdlibParams {
                freq_multiplier: self.d01 & 0xF,
                scale_envelope: self.d01 & 0x10 != 0,
                enable_sustain: self.d01 & 0x20 != 0,
                vibrato: self.d01 & 0x40 != 0,
                tremolo: self.d01 & 0x80 != 0,
                scale_level: ((c2 & 1) << 7) | ((c2 >> 1) << 6),
                output_level: self.d03 & 0x3F,
                attack: self.d05 >> 4,
                decay: self.d05 & 0xF,
                sustain: self.d07 >> 4,
                release: self.d07 & 0xF,
                wave: self.d09,
                feedback: 0,
                connection: false,
            },
        }
    }
}

/// The empty PCM instrument slot: zero header fields, no audio.
pub open spec fn sample_default(s: S3MSample) -> bool {
    &&& s.sample_type == 0
    &&& s.filename@ == Seq::new(12, |i: int| 0u8)
    &&& s.memseg@ == Seq::new(3, |i: int| 0u8)
    &&& s.length == 0
    &&& s.loop_begin == 0
    &&& s.loop_end == 0
    &&& s.volume == 0
    &&& s._unused == 0
    &&& s.packed == 0
    &&& s.flags == 0
    &&& s.c4speed == 0
    &&& s._unused2 == 0
    &&& s.int_gp == 0
    &&& s.sample_name@ == Seq::new(28, |i: int| 0u8)
    &&& s._scrs@ == Seq::new(4, |i: int| 0u8)
    &&& s.audio@ == Seq::<i16>::empty()
}

/// A byte vector of `n` zeros.
fn zeros(n: usize) -> (r: Vec<u8>)
    ensures
        r@ == Seq::new(n as nat, |i: int| 0u8),
{
    let mut r: Vec<u8> = Vec::new();
    while r.len() < n
        invariant
            r@.len() <= n,
            forall|i: int| 0 <= i < r@.len() ==> r@[i] == 0u8,
        decreases n - r@.len(),
    {
        r.push(0);
    }
    proof {
        assert(r@ =~= Seq::new(n as nat, |i: int| 0u8));
    }
    r
}

impl Default for S3MSample {
    fn default() -> (r: Self)
        ensures
            sample_default(r),
    {
        S3MSample {
            sample_type: 0,
            filename: zeros(12),
            memseg: zeros(3),
            length: 0,
            loop_begin: 0,
            loop_end: 0,
            volume: 0,
            _unused: 0,
            packed: 0,
            flags: 0,
            c4speed: 0,
            _unused2: 0,
            int_gp: 0,
            sample_name: zeros(28),
            _scrs: zeros(4),
            audio: Vec::new(),
        }
    }
}

/// The empty FM instrument slot: zero registers and metadata.
pub open spec fn adlib_default(s: S3MAdlibInstrument) -> bool {
    &&& s.instrument_type == 0
    &&& s.filename@ == Seq::new(12, |i: int| 0u8)
    &&& s._unused@ == Seq::new(3, |i: int| 0u8)
    &&& s.d00 == 0 && s.d01 == 0 && s.d02 == 0 && s.d03 == 0
    &&& s.d04 == 0 && s.d05 == 0 && s.d06 == 0 && s.d07 == 0
    &&& s.d08 == 0 && s.d09 == 0 && s.d0a == 0 && s.d0b == 0
    &&& s.volume == 0
    &&& s.disk == 0
    &&& s._unused2 == 0
    &&& s.c4freq == 0
    &&& s._unused3@ == Seq::new(12, |i: int| 0u8)
    &&& s.sample_name@ == Seq::new(28, |i: int| 0u8)
    &&& s._scri@ == Seq::new(4, |i: int| 0u8)
}

impl Default for S3MAdlibInstrument {
    fn default() -> (r: Self)
        ensures
            adlib_default(r),
    {
        S3MAdlibInstrument {
            instrument_type: 0,
            filename: zeros(12),
            _unused: zeros(3),
            d00: 0,
            d01: 0,
            d02: 0,
            d03: 0,
            d04: 0,
            d05: 0,
            d06: 0,
            d07: 0,
            d08: 0,
            d09: 0,
            d0a: 0,
            d0b: 0,
            volume: 0,
            disk: 0,
            _unused2: 0,
            c4freq: 0,
            _unused3: zeros(12),
            sample_name: zeros(28),
            _scri: zeros(4),
        }
    }
}

/// The empty module: zero header scalars, empty tables and content.
pub open spec fn module_default(m: S3MModule) -> bool {
    &&& m.song_name@ == Seq::new(28, |i: int| 0u8)
    &&& m._unused == 0
    &&& m.order_amount == 0
    &&& m.sample_amount == 0
    &&& m.pattern_amount == 0
    &&& m.flags == 0
    &&& m.tracker_metadata == 0
    &&& m.ffi == 0
    &&& m._scrm == 0
    &&& m.global_volume == 0
    &&& m.initial_speed == 0
    &&& m.initial_tempo == 0
    &&& m.mixing_volume == 0
    &&& m.ramping == 0
    &&& m.default_panning == 0
    &&& m._unused2@ == Seq::new(8, |i: int| 0u8)
    &&& m.special == 0
    &&& m.channel_settings@ == Seq::new(32, |i: int| 0u8)
    &&& m.orders@ == Seq::<u8>::empty()
    &&& m.sample_offsets@ == Seq::<u16>::empty()
    &&& m.pattern_offsets@ == Seq::<u16>::empty()
    &&& m.channel_panning@ == Seq::new(32, |i: int| 0u8)
    &&& m.instruments@ == Seq::<S3MInstrument>::empty()
    &&& m.patterns@ == Seq::<S3MPattern>::empty()
}

impl Default for S3MModule {
    fn default() -> (r: Self)
        ensures
            module_default(r),
    {
        S3MModule {
            song_name: zeros(28),
            _unused: 0,
            order_amount: 0,
            sample_amount: 0,
            pattern_amount: 0,
            flags: 0,
            tracker_metadata: 0,
            ffi: 0,
            _scrm: 0,
            global_volume: 0,
            initial_speed: 0,
            initial_tempo: 0,
            mixing_volume: 0,
            ramping: 0,
            default_panning: 0,
            _unused2: zeros(8),
            special: 0,
            channel_settings: zeros(32),
            orders: Vec::new(),
            sample_offsets: Vec::new(),
            pattern_offsets: Vec::new(),
            channel_panning: zeros(32),
            instruments: Vec::new(),
            patterns: Vec::new(),
        }
    }
}

/// A well-formed row has one cell per source channel.
pub open spec fn row_wf(r: S3MRow) -> bool {
    r@.len() == 32
}

/// A well-formed pattern is a full 64 by 32 grid.
pub open spec fn pattern_wf(p: S3MPattern) -> bool {
    &&& p@.len() == 64
    &&& forall|i: int| 0 <= i < 64 ==> row_wf(#[trigger] p@[i])
}

/// The pattern as a mathematical grid: one sequence of cells per row.
pub open spec fn grid_view(p: S3MPattern) -> Seq<Seq<S3MColumn>> {
    p@.map(|i: int, r: S3MRow| r@)
}

/// A row of 32 empty cells.
pub fn default_row() -> (r: S3MRow)
    ensures
        row_wf(r),
        forall|i: int| 0 <= i < 32 ==> r@[i] == S3MColumn::default_spec(),
{
    let mut r: Vec<S3MColumn> = Vec::new();
    while r.len() < 32
        invariant
            r@.len() <= 32,
            forall|i: int| 0 <= i < r@.len() ==> r@[i] == S3MColumn::default_spec(),
        decreases 32 - r@.len(),
    {
        r.push(S3MColumn::default());
    }
    r
}

/// A pattern of 64 empty rows.
pub fn default_pattern() -> (p: S3MPattern)
    ensures
        pattern_wf(p),
        forall|i: int, j: int|
            0 <= i < 64 && 0 <= j < 32 ==> p@[i]@[j] == S3MColumn::default_spec(),
{
    let mut p: Vec<S3MRow> = Vec::new();
    while p.len() < 64
        invariant
            p@.len() <= 64,
            forall|i: int| 0 <= i < p@.len() ==> row_wf(#[trigger] p@[i]),
            forall|i: int, j: int|
                0 <= i < p@.len() && 0 <= j < 32 ==> p@[i]@[j] == S3MColumn::default_spec(),
        decreases 64 - p@.len(),
    {
        p.push(default_row());
    }
    p
}

/// The 16-bit little-endian value at offset `i`.
pub open spec fn le16_at(d: Seq<u8>, i: int) -> u16 {
    ((d[i] as int) + 256 * (d[i + 1] as int)) as u16
}

/// The 32-bit little-endian value at offset `i`.
pub open spec fn le32_at(d: Seq<u8>, i: int) -> u32 {
    ((d[i] as int) + 0x100 * (d[i + 1] as int) + 0x10000 * (d[i + 2] as int) + 0x1000000 * (d[i
        + 3] as int)) as u32
}

/// The start of the sample-pointer table: right after the order list.
pub open spec fn so_base(d: Seq<u8>) -> int {
    96 + le16_at(d, 32) as int
}

/// The start of the pattern-pointer table.
pub open spec fn po_base(d: Seq<u8>) -> int {
    so_base(d) + 2 * (le16_at(d, 34) as int)
}

/// One past the last header byte (the channel panning table's end).
pub open spec fn header_end(d: Seq<u8>) -> int {
    po_base(d) + 2 * (le16_at(d, 36) as int) + 32
}

/// The paragraph pointer of instrument slot `k`.
pub open spec fn sample_off(d: Seq<u8>, k: int) -> u16 {
    le16_at(d, so_base(d) + 2 * k)
}

/// The paragraph pointer of pattern slot `k`.
pub open spec fn pattern_off(d: Seq<u8>, k: int) -> u16 {
    le16_at(d, po_base(d) + 2 * k)
}

/// The 20-bit audio-data offset assembled from the three pointer bytes
/// at `i`: middle byte into bits 4..11, last into 12..19, first into
/// 20..27.
pub open spec fn memseg_ptr(d: Seq<u8>, i: int) -> int {
    (d[i + 1] as int) * 16 + (d[i + 2] as int) * 0x1000 + (d[i] as int) * 0x100000
}

/// A signed 16-bit sample from two little-endian bytes.
pub open spec fn i16_from_le(lo: u8, hi: u8) -> i16 {
    (((lo as int) + 256 * (hi as int)) as u16) as i16
}

/// A signed 16-bit sample from two little-endian bytes of unsigned
/// source data: the top bit is flipped before reinterpreting.
pub open spec fn i16_from_le_unsigned(lo: u8, hi: u8) -> i16 {
    ((((lo as int) + 256 * (hi as int)) as u16) ^ 0x8000) as i16
}

/// An 8-bit source sample scaled to 16 bits: sign-extended when the
/// source is signed, recentred by 128 otherwise.
pub open spec fn i16_from_byte(x: u8, signed: bool) -> i16 {
    if signed {
        (((x as i8) as int) * 256) as i16
    } else {
        (((x as int) - 128) * 256) as i16
    }
}

/// The decoded audio of a 16-bit sample: `len` samples at `ptr`.
pub open spec fn audio16_at(d: Seq<u8>, ptr: int, len: int, signed: bool) -> Seq<i16> {
    Seq::new(
        len as nat,
        |i: int|
            if signed {
                i16_from_le(d[ptr + 2 * i], d[ptr + 2 * i + 1])
            } else {
                i16_from_le_unsigned(d[ptr + 2 * i], d[ptr + 2 * i + 1])
            },
    )
}

/// The decoded audio of an 8-bit sample: `len` samples at `ptr`.
pub open spec fn audio8_at(d: Seq<u8>, ptr: int, len: int, signed: bool) -> Seq<i16> {
    Seq::new(len as nat, |i: int| i16_from_byte(d[ptr + i], signed))
}

/// What a PCM instrument slot decoded from paragraph `base` holds: the
/// header fields at their fixed offsets, and the audio read from the
/// assembled data pointer (16-bit when bit 2 of the flags is set,
/// 8-bit otherwise; signed when the format marker `ffi` is 1).
pub open spec fn pcm_sample_at(d: Seq<u8>, base: int, ffi: u16, s: S3MSample) -> bool {
    &&& s.sample_type == 1
    &&& s.filename@ == d.subrange(base + 1, base + 13)
    &&& s.memseg@ == d.subrange(base + 13, base + 16)
    &&& s.length == le32_at(d, base + 16)
    &&& s.loop_begin == le32_at(d, base + 20)
    &&& s.loop_end == le32_at(d, base + 24)
    &&& s.volume == d[base + 28]
    &&& s._unused == d[base + 29]
    &&& s.packed == d[base + 30]
    &&& s.flags == d[base + 31]
    &&& s.c4speed == le32_at(d, base + 32)
    &&& s._unused2 == 0
    &&& s.int_gp == le16_at(d, base + 40)
    &&& s.sample_name@ == d.subrange(base + 48, base + 76)
    &&& s._scrs@ == Seq::new(4, |i: int| 0u8)
    &&& {
        let ptr = memseg_ptr(d, base + 13);
        let alen = le32_at(d, base + 16) as int;
        if d[base + 31] & 4 != 0 {
            s.audio@ == audio16_at(d, ptr, alen, ffi == 1)
        } else {
            s.audio@ == audio8_at(d, ptr, alen, ffi == 1)
        }
    }
}

/// What an FM instrument slot decoded from paragraph `base` holds.
pub open spec fn adlib_at(d: Seq<u8>, base: int, a: S3MAdlibInstrument) -> bool {
    &&& a.instrument_type == d[base]
    &&& a.filename@ == d.subrange(base + 1, base + 13)
    &&& a._unused@ == d.subrange(base + 13, base + 16)
    &&& a.d00 == d[base + 16]
    &&& a.d01 == d[base + 17]
    &&& a.d02 == d[base + 18]
    &&& a.d03 == d[base + 19]
    &&& a.d04 == d[base + 20]
    &&& a.d05 == d[base + 21]
    &&& a.d06 == d[base + 22]
    &&& a.d07 == d[base + 23]
    &&& a.d08 == d[base + 24]
    &&& a.d09 == d[base + 25]
    &&& a.d0a == d[base + 26]
    &&& a.d0b == d[base + 27]
    &&& a.volume == d[base + 28]
    &&& a.disk == d[base + 29]
    &&& a._unused2 == le16_at(d, base + 30)
    &&& a.c4freq == le32_at(d, base + 32)
    &&& a._unused3@ == d.subrange(base + 36, base + 48)
    &&& a.sample_name@ == d.subrange(base + 48, base + 76)
    &&& a._scri@ == d.subrange(base + 76, base + 80)
}

/// What instrument slot `k` with paragraph pointer `off` decodes to:
/// pointer 0 and type 0 give the empty PCM slot, type 1 a PCM sample,
/// type 2 and above an FM instrument.
pub open spec fn instrument_at(d: Seq<u8>, off: u16, ffi: u16, inst: S3MInstrument) -> bool {
    if off == 0 {
        inst matches S3MInstrument::Sample(s) && sample_default(s)
    } else {
        let base = (off as int) * 16;
        let t = d[base];
        if t == 0 {
            inst matches S3MInstrument::Sample(s) && sample_default(s)
        } else if t == 1 {
            inst matches S3MInstrument::Sample(s) && pcm_sample_at(d, base, ffi, s)
        } else {
            inst matches S3MInstrument::Adlib(a) && adlib_at(d, base, a)
        }
    }
}

/// The first failure an instrument slot meets, in read order: a
/// truncated header, then the packed-compression rejection, then a
/// truncated tail or audio range.
pub open spec fn inst_err(d: Seq<u8>, off: u16, ffi: u16) -> Option<DecodeError> {
    if off == 0 {
        None
    } else {
        let base = (off as int) * 16;
        if base + 1 > d.len() {
            Some(DecodeError::Truncated)
        } else {
            let t = d[base];
            if t == 0 {
                None
            } else if t == 1 {
                if base + 31 > d.len() {
                    Some(DecodeError::Truncated)
                } else if d[base + 30] == 1 {
                    Some(DecodeError::CompressionUnsupported)
                } else if base + 76 > d.len() {
                    Some(DecodeError::Truncated)
                } else {
                    let ptr = memseg_ptr(d, base + 13);
                    let alen = le32_at(d, base + 16) as int;
                    let need = if d[base + 31] & 4 != 0 {
                        ptr + 2 * alen
                    } else {
                        ptr + alen
                    };
                    if need > d.len() {
                        Some(DecodeError::Truncated)
                    } else {
                        None
                    }
                }
            } else {
                if base + 80 > d.len() {
                    Some(DecodeError::Truncated)
                } else {
                    None
                }
            }
        }
    }
}

/// The first failure among the first `n` instrument slots.
pub open spec fn insts_err(d: Seq<u8>, ffi: u16, n: int) -> Option<DecodeError>
    decreases n,
{
    if n <= 0 {
        None
    } else {
        match insts_err(d, ffi, n - 1) {
            Option::Some(e) => Some(e),
            Option::None => inst_err(d, sample_off(d, n - 1), ffi),
        }
    }
}

/// The all-empty 64 by 32 grid a pattern starts from.
pub open spec fn default_grid() -> Seq<Seq<S3MColumn>> {
    Seq::new(64, |i: int| Seq::new(32, |j: int| S3MColumn::default_spec()))
}

/// One unpacking step per control byte: a zero byte closes the current
/// row; otherwise the low 5 bits select the column, bit 5 brings note
/// and instrument bytes, bit 6 a volume byte, bit 7 the effect pair.
/// Unpacking ends when 64 rows are closed; `None` means the data ran
/// out first.
pub open spec fn spec_unpack(d: Seq<u8>, pos: int, row: int, g: Seq<Seq<S3MColumn>>) -> Option<
    Seq<Seq<S3MColumn>>,
>
    decreases d.len() - pos,
{
    if pos < 0 || pos >= d.len() {
        None
    } else {
        let b = d[pos];
        let n_extra = (if b & 32 != 0 {
            2int
        } else {
            0int
        }) + (if b & 64 != 0 {
            1int
        } else {
            0int
        }) + (if b & 128 != 0 {
            2int
        } else {
            0int
        });
        if pos + 1 + n_extra > d.len() {
            None
        } else {
            let row1 = if b == 0 {
                row + 1
            } else {
                row
            };
            let ch = (b & 31) as int;
            let cell0 = g[row][ch];
            let cell1 = if b & 32 != 0 {
                S3MColumn { note: d[pos + 1], instrument: d[pos + 2], ..cell0 }
            } else {
                cell0
            };
            let vpos = pos + 1 + (if b & 32 != 0 {
                2int
            } else {
                0int
            });
            let cell2 = if b & 64 != 0 {
                S3MColumn { vol: d[vpos], ..cell1 }
            } else {
                cell1
            };
            let fpos = vpos + (if b & 64 != 0 {
                1int
            } else {
                0int
            });
            let cell3 = if b & 128 != 0 {
                S3MColumn { effect: d[fpos], effect_value: d[fpos + 1], ..cell2 }
            } else {
                cell2
            };
            let g1 = if b & 0xE0 != 0 {
                g.update(row, g[row].update(ch, cell3))
            } else {
                g
            };
            if row1 == 64 {
                Some(g1)
            } else {
                spec_unpack(d, pos + 1 + n_extra, row1, g1)
            }
        }
    }
}

/// What pattern slot `k` with paragraph pointer `off` decodes to:
/// pointer 0 gives the empty grid, otherwise the grid unpacked from two
/// bytes past the paragraph (skipping the packed-size field).
pub open spec fn spec_pattern_at(d: Seq<u8>, off: u16) -> Seq<Seq<S3MColumn>> {
    if off == 0 {
        default_grid()
    } else {
        match spec_unpack(d, (off as int) * 16 + 2, 0, default_grid()) {
            Option::Some(g) => g,
            Option::None => default_grid(),
        }
    }
}

/// The failure a pattern slot meets: only running out of data.
pub open spec fn pat_err(d: Seq<u8>, off: u16) -> Option<DecodeError> {
    if off == 0 {
        None
    } else if spec_unpack(d, (off as int) * 16 + 2, 0, default_grid()) is Some {
        None
    } else {
        Some(DecodeError::Truncated)
    }
}

/// The first failure among the first `n` pattern slots.
pub open spec fn pats_err(d: Seq<u8>, n: int) -> Option<DecodeError>
    decreases n,
{
    if n <= 0 {
        None
    } else {
        match pats_err(d, n - 1) {
            Option::Some(e) => Some(e),
            Option::None => pat_err(d, pattern_off(d, n - 1)),
        }
    }
}

/// The first failure a whole module meets, in read order: a header too
/// short for the magic, the magic mismatch, truncated header tables,
/// then the instrument slots in order, then the pattern slots in order.
pub open spec fn decode_err(d: Seq<u8>) -> Option<DecodeError> {
    if d.len() < 48 {
        Some(DecodeError::Truncated)
    } else if le32_at(d, 44) != 0x4D524353 {
        Some(DecodeError::Format)
    } else if header_end(d) > d.len() {
        Some(DecodeError::Truncated)
    } else {
        match insts_err(d, le16_at(d, 42), le16_at(d, 34) as int) {
            Option::Some(e) => Some(e),
            Option::None => pats_err(d, le16_at(d, 36) as int),
        }
    }
}

/// Once an instrument slot fails, scanning further keeps that failure.
proof fn lemma_insts_err_extend(d: Seq<u8>, ffi: u16, k: int, n: int)
    requires
        0 <= k <= n,
        insts_err(d, ffi, k) is Some,
    ensures
        insts_err(d, ffi, n) == insts_err(d, ffi, k),
    decreases n - k,
{
    if n > k {
        lemma_insts_err_extend(d, ffi, k, n - 1);
    }
}

/// Once a pattern slot fails, scanning further keeps that failure.
proof fn lemma_pats_err_extend(d: Seq<u8>, k: int, n: int)
    requires
        0 <= k <= n,
        pats_err(d, k) is Some,
    ensures
        pats_err(d, n) == pats_err(d, k),
    decreases n - k,
{
    if n > k {
        lemma_pats_err_extend(d, k, n - 1);
    }
}

/// The 16-bit little-endian value at `i`.
fn read_u16_at(data: &Vec<u8>, i: usize) -> (r: u16)
    requires
        i + 2 <= data@.len(),
    ensures
        r == le16_at(data@, i as int),
{
    let _n = data.len();
    (data[i] as u16) + (data[i + 1] as u16) * 256
}

/// The 32-bit little-endian value at `i`.
fn read_u32_at(data: &Vec<u8>, i: usize) -> (r: u32)
    requires
        i + 4 <= data@.len(),
    ensures
        r == le32_at(data@, i as int),
{
    let _n = data.len();
    (data[i] as u32) + (data[i + 1] as u32) * 0x100 + (data[i + 2] as u32) * 0x10000 + (data[i
        + 3] as u32) * 0x1000000
}

/// The bytes of `data` from `start` (inclusive) to `end` (exclusive).
fn read_bytes(data: &Vec<u8>, start: usize, end: usize) -> (r: Vec<u8>)
    requires
        start <= end,
        end <= data@.len(),
    ensures
        r@ == data@.subrange(start as int, end as int),
{
    let mut r: Vec<u8> = Vec::new();
    let mut i: usize = start;
    while i < end
        invariant
            start <= i <= end,
            end <= data@.len(),
            r@ == data@.subrange(start as int, i as int),
        decreases end - i,
    {
        r.push(data[i]);
        proof {
            assert(data@.subrange(start as int, i + 1) =~= data@.subrange(
                start as int,
                i as int,
            ).push(data@[i as int]));
        }
        i = i + 1;
    }
    r
}

/// `n` 16-bit little-endian values starting at `start`.
fn read_u16s(data: &Vec<u8>, start: usize, n: usize) -> (r: Vec<u16>)
    requires
        start + 2 * n <= data@.len(),
    ensures
        r@.len() == n,
        forall|k: int| 0 <= k < n ==> r@[k] == le16_at(data@, start + 2 * k),
{
    let _len = data.len();
    let mut r: Vec<u16> = Vec::new();
    let mut k: usize = 0;
    while k < n
        invariant
            k <= n,
            data@.len() <= usize::MAX,
            start + 2 * n <= data@.len(),
            r@.len() == k,
            forall|j: int| 0 <= j < k ==> r@[j] == le16_at(data@, start + 2 * j),
        decreases n - k,
    {
        r.push(read_u16_at(data, start + 2 * k));
        k = k + 1;
    }
    r
}

/// Decode one instrument slot from its paragraph pointer, or report
/// the first failure it meets.
#[verifier::loop_isolation(false)]
fn parse_instrument(data: &Vec<u8>, off: u16, ffi: u16) -> (r: Result<S3MInstrument, DecodeError>)
    ensures
        r matches Ok(inst) ==> inst_err(data@, off, ffi) is None && instrument_at(
            data@,
            off,
            ffi,
            inst,
        ),
        r matches Err(e) ==> inst_err(data@, off, ffi) == Some(e),
{
    if off == 0 {
        return Ok(S3MInstrument::Sample(S3MSample::default()));
    }
    let base = (off as usize) * 16;
    if base + 1 > data.len() {
        return Err(DecodeError::Truncated);
    }
    let t = data[base];
    if t == 0 {
        return Ok(S3MInstrument::Sample(S3MSample::default()));
    }
    if t == 1 {
        // PCM sample
        if base + 31 > data.len() {
            return Err(DecodeError::Truncated);
        }
        if data[base + 30] == 1 {
            return Err(DecodeError::CompressionUnsupported);
        }
        if base + 76 > data.len() {
            return Err(DecodeError::Truncated);
        }
        let memseg = read_bytes(data, base + 13, base + 16);
        let ptr: usize = (memseg[1] as usize) * 16 + (memseg[2] as usize) * 0x1000 + (
        memseg[0] as usize) * 0x100000;
        proof {
            assert(ptr == memseg_ptr(data@, base + 13));
        }
        let length = read_u32_at(data, base + 16);
        let flags = data[base + 31];
        let alen = length as usize;
        let need: u64 = if flags & 4 != 0 {
            (ptr as u64) + 2 * (length as u64)
        } else {
            (ptr as u64) + (length as u64)
        };
        if need > data.len() as u64 {
            return Err(DecodeError::Truncated);
        }

        let mut audio: Vec<i16> = Vec::new();
        if flags & 4 != 0 {
            // 16-bit audio
            while audio.len() < alen
                invariant
                    audio@.len() <= alen,
                    forall|j: int|
                        0 <= j < audio@.len() ==> audio@[j] == audio16_at(
                            data@,
                            ptr as int,
                            alen as int,
                            ffi == 1,
                        )[j],
                decreases alen - audio@.len(),
            {
                let k = audio.len();
                let lo = data[ptr + 2 * k];
                let hi = data[ptr + 2 * k + 1];
                let w: u16 = (lo as u16) + (hi as u16) * 256;
                let v: i16 = if ffi == 1 {
                    w as i16
                } else {
                    (w ^ 0x8000) as i16
                };
                audio.push(v);
            }
            proof {
                assert(audio@ =~= audio16_at(data@, ptr as int, alen as int, ffi == 1));
            }
        } else {
            // 8-bit audio
            while audio.len() < alen
                invariant
                    audio@.len() <= alen,
                    forall|j: int|
                        0 <= j < audio@.len() ==> audio@[j] == audio8_at(
                            data@,
                            ptr as int,
                            alen as int,
                            ffi == 1,
                        )[j],
                decreases alen - audio@.len(),
            {
                let k = audio.len();
                let x = data[ptr + k];
                let v: i16 = if ffi == 1 {
                    ((x as i8) as i16) * 256
                } else {
                    ((x as i16) - 128) * 256
                };
                audio.push(v);
            }
            proof {
                assert(audio@ =~= audio8_at(data@, ptr as int, alen as int, ffi == 1));
            }
        }

        let sample = S3MSample {
            sample_type: 1,
            filename: read_bytes(data, base + 1, base + 13),
            memseg,
            length,
            loop_begin: read_u32_at(data, base + 20),
            loop_end: read_u32_at(data, base + 24),
            volume: data[base + 28],
            _unused: data[base + 29],
            packed: data[base + 30],
            flags,
            c4speed: read_u32_at(data, base + 32),
            _unused2: 0,
            int_gp: read_u16_at(data, base + 40),
            sample_name: read_bytes(data, base + 48, base + 76),
            _scrs: zeros(4),
            audio,
        };
        return Ok(S3MInstrument::Sample(sample));
    }
    // FM instrument
    if base + 80 > data.len() {
        return Err(DecodeError::Truncated);
    }
    let instrument = S3MAdlibInstrument {
        instrument_type: t,
        filename: read_bytes(data, base + 1, base + 13),
        _unused: read_bytes(data, base + 13, base + 16),
        d00: data[base + 16],
        d01: data[base + 17],
        d02: data[base + 18],
        d03: data[base + 19],
        d04: data[base + 20],
        d05: data[base + 21],
        d06: data[base + 22],
        d07: data[base + 23],
        d08: data[base + 24],
        d09: data[base + 25],
        d0a: data[base + 26],
        d0b: data[base + 27],
        volume: data[base + 28],
        disk: data[base + 29],
        _unused2: read_u16_at(data, base + 30),
        c4freq: read_u32_at(data, base + 32),
        _unused3: read_bytes(data, base + 36, base + 48),
        sample_name: read_bytes(data, base + 48, base + 76),
        _scri: read_bytes(data, base + 76, base + 80),
    };
    Ok(S3MInstrument::Adlib(instrument))
}

/// Decode one pattern slot from its paragraph pointer, or report that
/// the data ran out.
fn parse_pattern(data: &Vec<u8>, off: u16) -> (r: Result<S3MPattern, DecodeError>)
    ensures
        r matches Ok(p) ==> pat_err(data@, off) is None && pattern_wf(p) && grid_view(p)
            == spec_pattern_at(data@, off),
        r matches Err(e) ==> pat_err(data@, off) == Some(e),
{
    let mut pattern = default_pattern();
    proof {
        assert(grid_view(pattern) =~~= default_grid());
    }
    if off == 0 {
        return Ok(pattern);
    }
    let _len = data.len();
    let start = (off as usize) * 16 + 2;
    let mut row: usize = 0;
    let mut pos: usize = start;
    loop
        invariant_except_break
            off != 0,
            start == (off as int) * 16 + 2,
            pattern_wf(pattern),
            row <= 63,
            start <= pos,
            data@.len() <= usize::MAX,
            spec_unpack(data@, start as int, 0, default_grid()) == spec_unpack(
                data@,
                pos as int,
                row as int,
                grid_view(pattern),
            ),
        ensures
            off != 0,
            start == (off as int) * 16 + 2,
            pattern_wf(pattern),
            spec_unpack(data@, start as int, 0, default_grid()) == Some(grid_view(pattern)),
        decreases data@.len() - pos,
    {
        if pos >= data.len() {
            return Err(DecodeError::Truncated);
        }
        let packed_byte = data[pos];
        let n_extra: usize = (if packed_byte & 32 != 0 {
            2
        } else {
            0
        }) + (if packed_byte & 64 != 0 {
            1
        } else {
            0
        }) + (if packed_byte & 128 != 0 {
            2
        } else {
            0
        });
        if data.len() - pos - 1 < n_extra {
            return Err(DecodeError::Truncated);
        }
        proof {
            assert(packed_byte & 31 <= 31) by (bit_vector);
            assert((packed_byte & 0xE0 == 0 && packed_byte != 0) ==> (packed_byte & 32 == 0
                && packed_byte & 64 == 0 && packed_byte & 128 == 0)) by (bit_vector);
            assert((packed_byte == 0) ==> (packed_byte & 0xE0 == 0 && packed_byte & 32 == 0
                && packed_byte & 64 == 0 && packed_byte & 128 == 0)) by (bit_vector);
            assert((packed_byte & 0xE0 != 0) ==> packed_byte != 0) by (bit_vector);
        }
        let channel = (packed_byte & 31) as usize;
        let ghost g_pre = grid_view(pattern);
        let ghost row_pre = row as int;
        let ghost pos_pre = pos as int;
        if packed_byte & 0xE0 != 0 {
            let mut cell = pattern[row][channel];
            let mut rp = pos + 1;
            if packed_byte & 32 != 0 {
                cell.note = data[rp];
                cell.instrument = data[rp + 1];
                rp = rp + 2;
            }
            if packed_byte & 64 != 0 {
                cell.vol = data[rp];
                rp = rp + 1;
            }
            if packed_byte & 128 != 0 {
                cell.effect = data[rp];
                cell.effect_value = data[rp + 1];
            }
            pattern[row][channel] = cell;
            proof {
                assert(grid_view(pattern) =~~= g_pre.update(
                    row_pre,
                    g_pre[row_pre].update(channel as int, cell),
                ));
            }
        }
        if packed_byte == 0 {
            row = row + 1;
        }
        proof {
            let d = data@;
            let b = d[pos_pre];
            let sp = spec_unpack(d, pos_pre, row_pre, g_pre);
            assert(b == packed_byte);
            if row == 64 {
                assert(sp == Some(grid_view(pattern)));
            } else {
                assert(sp == spec_unpack(d, pos_pre + 1 + n_extra, row as int, grid_view(pattern)));
            }
        }
        if row == 64 {
            break ;
        }
        pos = pos + 1 + n_extra;
    }
    Ok(pattern)
}

impl S3MModule {
    /// Decode a whole module from a byte buffer: the fixed header, the
    /// order list and pointer tables, then every instrument and pattern
    /// slot. Decoding is all-or-nothing: the first failure is returned
    /// and nothing is produced.
    #[verifier::loop_isolation(false)]
    pub fn load(data: &Vec<u8>) -> (r: Result<S3MModule, DecodeError>)
        ensures
            decode_err(data@) matches Some(e) ==> r == Err::<S3MModule, DecodeError>(e),
            decode_err(data@) is None ==> (r matches Ok(m) && {
                &&& m.song_name@ == data@.subrange(0, 28)
                &&& m._unused == le32_at(data@, 28)
                &&& m.order_amount == le16_at(data@, 32)
                &&& m.sample_amount == le16_at(data@, 34)
                &&& m.pattern_amount == le16_at(data@, 36)
                &&& m.flags == le16_at(data@, 38)
                &&& m.tracker_metadata == le16_at(data@, 40)
                &&& m.ffi == le16_at(data@, 42)
                &&& m._scrm == 0x4D524353
                &&& m.global_volume == data@[48]
                &&& m.initial_speed == data@[49]
                &&& m.initial_tempo == data@[50]
                &&& m.mixing_volume == data@[51]
                &&& m.ramping == data@[52]
                &&& m.default_panning == data@[53]
                &&& m._unused2@ == data@.subrange(54, 62)
                &&& m.special == le16_at(data@, 62)
                &&& m.channel_settings@ == data@.subrange(64, 96)
                &&& m.orders@ == data@.subrange(96, so_base(data@))
                &&& m.sample_offsets@.len() == le16_at(data@, 34)
                &&& forall|k: int|
                    0 <= k < m.sample_offsets@.len() ==> m.sample_offsets@[k] == sample_off(data@, k)
                &&& m.pattern_offsets@.len() == le16_at(data@, 36)
                &&& forall|k: int|
                    0 <= k < m.pattern_offsets@.len() ==> m.pattern_offsets@[k] == pattern_off(data@, k)
                &&& m.channel_panning@ == data@.subrange(header_end(data@) - 32, header_end(data@))
                &&& m.instruments@.len() == le16_at(data@, 34)
                &&& forall|k: int|
                    0 <= k < m.instruments@.len() ==> instrument_at(
                        data@,
                        sample_off(data@, k),
                        le16_at(data@, 42),
                        #[trigger] m.instruments@[k],
                    )
                &&& m.patterns@.len() == le16_at(data@, 36)
                &&& forall|k: int|
                    0 <= k < m.patterns@.len() ==> pattern_wf(#[trigger] m.patterns@[k]) && grid_view(
                        m.patterns@[k],
                    ) == spec_pattern_at(data@, pattern_off(data@, k))
            }),
    {
        if data.len() < 48 {
            return Err(DecodeError::Truncated);
        }
        let magic = read_u32_at(data, 44);
        if magic != 0x4D524353 {
            return Err(DecodeError::Format);
        }
        let order_amount = read_u16_at(data, 32);
        let sample_amount = read_u16_at(data, 34);
        let pattern_amount = read_u16_at(data, 36);
        let so_b: usize = 96 + order_amount as usize;
        let po_b: usize = so_b + 2 * (sample_amount as usize);
        let h_end: usize = po_b + 2 * (pattern_amount as usize) + 32;
        if h_end > data.len() {
            return Err(DecodeError::Truncated);
        }
        let ffi = read_u16_at(data, 42);

        let mut instruments: Vec<S3MInstrument> = Vec::new();
        let mut k: usize = 0;
        while k < sample_amount as usize
            invariant
                k <= sample_amount as usize,
                insts_err(data@, ffi, k as int) is None,
                instruments@.len() == k,
                forall|j: int|
                    0 <= j < k ==> instrument_at(
                        data@,
                        sample_off(data@, j),
                        ffi,
                        #[trigger] instruments@[j],
                    ),
            decreases sample_amount as usize - k,
        {
            let off = read_u16_at(data, so_b + 2 * k);
            proof {
                assert(off == sample_off(data@, k as int));
            }
            match parse_instrument(data, off, ffi) {
                Result::Ok(inst) => {
                    instruments.push(inst);
                },
                Result::Err(e) => {
                    proof {
                        assert(insts_err(data@, ffi, k + 1) == Some(e));
                        lemma_insts_err_extend(data@, ffi, k + 1, sample_amount as int);
                    }
                    return Err(e);
                },
            }
            k = k + 1;
        }

        let mut patterns: Vec<S3MPattern> = Vec::new();
        let mut k: usize = 0;
        while k < pattern_amount as usize
            invariant
                k <= pattern_amount as usize,
                insts_err(data@, ffi, sample_amount as int) is None,
                pats_err(data@, k as int) is None,
                patterns@.len() == k,
                forall|j: int|
                    0 <= j < k ==> pattern_wf(#[trigger] patterns@[j]) && grid_view(patterns@[j])
                        == spec_pattern_at(data@, pattern_off(data@, j)),
            decreases pattern_amount as usize - k,
        {
            let off = read_u16_at(data, po_b + 2 * k);
            proof {
                assert(off == pattern_off(data@, k as int));
            }
            match parse_pattern(data, off) {
                Result::Ok(p) => {
                    patterns.push(p);
                },
                Result::Err(e) => {
                    proof {
                        assert(pats_err(data@, k + 1) == Some(e));
                        lemma_pats_err_extend(data@, k + 1, pattern_amount as int);
                    }
                    return Err(e);
                },
            }
            k = k + 1;
        }

        let module = S3MModule {
            song_name: read_bytes(data, 0, 28),
            _unused: read_u32_at(data, 28),
            order_amount,
            sample_amount,
            pattern_amount,
            flags: read_u16_at(data, 38),
            tracker_metadata: read_u16_at(data, 40),
            ffi,
            _scrm: magic,
            global_volume: data[48],
            initial_speed: data[49],
            initial_tempo: data[50],
            mixing_volume: data[51],
            ramping: data[52],
            default_panning: data[53],
            _unused2: read_bytes(data, 54, 62),
            special: read_u16_at(data, 62),
            channel_settings: read_bytes(data, 64, 96),
            orders: read_bytes(data, 96, so_b),
            sample_offsets: read_u16s(data, so_b, sample_amount as usize),
            pattern_offsets: read_u16s(data, po_b, pattern_amount as usize),
            channel_panning: read_bytes(data, h_end - 32, h_end),
            instruments,
            patterns,
        };
        Ok(module)
    }
}

} // verus!

