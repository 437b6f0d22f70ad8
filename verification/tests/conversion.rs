use s3m2c67::conversion::{ConvertWarning, Converter};
use s3m2c67::format_s3m::{S3MColumn, S3MModule, S3MPattern, S3MSample};

fn empty_pattern() -> S3MPattern {
    let mut p = Vec::new();
    for _ in 0..64 {
        let mut row = Vec::new();
        for _ in 0..32 {
            row.push(S3MColumn::default());
        }
        p.push(row);
    }
    p
}

fn base_module() -> S3MModule {
    S3MModule::default()
}

fn pcm_sample(volume: u8) -> S3MSample {
    let mut s = S3MSample::default();
    s.volume = volume;
    s
}

fn named_sample(name: &[u8; 12]) -> S3MSample {
    let mut s = S3MSample::default();
    s.filename = name.to_vec();
    s
}

#[test]
fn channel_remap_ascending() {
    // Three enabled PCM channels (classes 2, 5, 9) get targets 0, 1, 2.
    let mut m = base_module();
    m.channel_settings = vec![0u8; 32];
    m.channel_settings[1] = 0x80 | 2;
    m.channel_settings[4] = 0x80 | 5;
    m.channel_settings[7] = 0x80 | 9;
    m.instruments
        .push(s3m2c67::format_s3m::S3MInstrument::Sample(pcm_sample(40)));

    let conv = Converter::new(&m);
    assert!(conv.warnings().is_empty());

    // One note per enabled channel: the selectors must come out 0, 1, 2.
    let mut pat = empty_pattern();
    for (col, note) in [(1usize, 0x10u8), (4, 0x11), (7, 0x12)] {
        pat[0][col].note = note;
        pat[0][col].instrument = 1;
        pat[0][col].vol = 32;
    }
    let (cmds, warns) = conv.convert_pattern(&pat);
    assert!(warns.is_empty());
    let bytes = s3m2c67::format_c67::serialize_pattern(&cmds);
    assert_eq!(bytes[0], 0); // PCM channel 0
    assert_eq!(bytes[3], 1); // PCM channel 1
    assert_eq!(bytes[6], 2); // PCM channel 2
}

#[test]
fn channel_remap_cap_at_four() {
    // Six enabled PCM channels: only the first four are mapped, and a
    // capacity warning is raised for each extra one.
    let mut m = base_module();
    m.channel_settings = vec![0u8; 32];
    for i in 0..6 {
        m.channel_settings[i] = 0x80 | (i as u8);
    }
    let conv = Converter::new(&m);
    let w = conv.warnings();
    assert_eq!(w.len(), 2);
    assert_eq!(w[0], ConvertWarning::PcmChannelCapacity);
    assert_eq!(w[1], ConvertWarning::PcmChannelCapacity);

    // A note on the fifth enabled channel (class 4) is dropped.
    let mut pat = empty_pattern();
    pat[0][4].note = 0x10;
    pat[0][4].instrument = 1;
    let mut m2 = m;
    m2.instruments
        .push(s3m2c67::format_s3m::S3MInstrument::Sample(pcm_sample(40)));
    let conv2 = Converter::new(&m2);
    let (cmds, warns) = conv2.convert_pattern(&pat);
    assert_eq!(warns, vec![ConvertWarning::UnmappedChannel(4)]);
    // Only the 64 row delays and the end marker remain.
    let bytes = s3m2c67::format_c67::serialize_pattern(&cmds);
    assert_eq!(bytes.len(), 64 * 2 + 1);
}

#[test]
fn instrument_cap_at_32() {
    // 35 PCM instruments: exactly 32 survive, in first-seen order, and
    // the filename table holds no entry for the 33rd and later.
    let mut m = base_module();
    m.channel_settings = vec![0u8; 32];
    m.channel_settings[0] = 0x80;
    for i in 0..35u8 {
        let name = [b'A' + (i % 26), b'0' + (i % 10), b' ', b' ', b' ', b' ', b' ', b' ', b' ',
            b' ', b' ', b' '];
        m.instruments
            .push(s3m2c67::format_s3m::S3MInstrument::Sample(named_sample(&name)));
    }
    let conv = Converter::new(&m);
    let w = conv.warnings();
    assert_eq!(w.len(), 3);
    assert!(w.iter().all(|x| *x == ConvertWarning::PcmInstrumentCapacity));

    let (out, _warns) = conv.convert();
    // First slot holds instrument 0's name, slot 31 instrument 31's.
    assert_eq!(out.header.instrument_filenames[0], b'A');
    assert_eq!(out.header.instrument_filenames[31 * 13], b'A' + 31 % 26);
    assert_eq!(out.header.instrument_filenames[31 * 13 + 1], b'0' + 31 % 10);
    // Every slot ends with the terminator.
    for s in 0..32 {
        assert_eq!(out.header.instrument_filenames[s * 13 + 12], 0);
    }
    // There is no 33rd slot: the table is exactly 13 * 32 bytes.
    assert_eq!(out.header.instrument_filenames.len(), 13 * 32);
}

#[test]
fn playlist_skips_separators() {
    let mut m = base_module();
    m.channel_settings = vec![0u8; 32];
    m.orders = vec![3, 254, 5, 254];
    let conv = Converter::new(&m);
    let (out, warns) = conv.convert();
    assert!(warns.is_empty());
    assert_eq!(out.header.playlist[0], 3);
    assert_eq!(out.header.playlist[1], 5);
    for i in 2..256 {
        assert_eq!(out.header.playlist[i], 0xFF);
    }
}

#[test]
fn silent_pattern_filling() {
    // One source pattern: the other 127 slots hold the identical
    // 3-byte filler (whole-pattern delay, end marker).
    let mut m = base_module();
    m.channel_settings = vec![0u8; 32];
    m.patterns.push(empty_pattern());
    let conv = Converter::new(&m);
    let (out, warns) = conv.convert();
    assert!(warns.is_empty());
    assert_eq!(out.header.pattern_pointers.list.len(), 128);
    assert_eq!(out.header.pattern_lengths.list.len(), 128);
    let first_len = out.header.pattern_lengths.list[0] as usize;
    assert_eq!(first_len, 64 * 2 + 1);
    for slot in 1..128 {
        let off = out.header.pattern_pointers.list[slot] as usize;
        let len = out.header.pattern_lengths.list[slot] as usize;
        assert_eq!(len, 3);
        assert_eq!(&out.pattern_data[off..off + len], &[0x40, 64, 0x60]);
    }
}

#[test]
fn empty_module_is_all_fillers() {
    // No source patterns at all: every slot is the filler, and
    // converting twice gives the same 128 identical slots.
    let mut m = base_module();
    m.channel_settings = vec![0u8; 32];
    let conv = Converter::new(&m);
    let (out1, _) = conv.convert();
    let (out2, _) = conv.convert();
    assert_eq!(out1.pattern_data, out2.pattern_data);
    assert_eq!(out1.pattern_data.len(), 128 * 3);
    for slot in 0..128 {
        assert_eq!(out1.header.pattern_pointers.list[slot], 3 * slot as u32);
        assert_eq!(out1.header.pattern_lengths.list[slot], 3);
    }
}

#[test]
fn sample_conversion_values() {
    // Signed 16-bit -256 becomes 127; 0 becomes 128.
    let mut m = base_module();
    m.channel_settings = vec![0u8; 32];
    let mut s = pcm_sample(40);
    s.audio = vec![-256, 0, -1, 32767, -32768];
    m.instruments
        .push(s3m2c67::format_s3m::S3MInstrument::Sample(s));
    let conv = Converter::new(&m);
    let (out, _) = conv.convert();
    assert_eq!(out.sample_data[0], 127);
    assert_eq!(out.sample_data[1], 128);
    assert_eq!(out.sample_data[2], 127); // -1 >> 8 == -1
    assert_eq!(out.sample_data[3], 255);
    assert_eq!(out.sample_data[4], 0);
    // The metadata records the audio length; no loop flag leaves the
    // loop end at the empty slot's maximum.
    assert_eq!(out.header.instrument_meta[0].sample_length, 5);
    assert_eq!(out.header.instrument_meta[0].loop_start, 0);
    assert_eq!(out.header.instrument_meta[0].loop_end, 0xFFFFF);
}

#[test]
fn loop_points_copied_when_flagged() {
    let mut m = base_module();
    m.channel_settings = vec![0u8; 32];
    let mut s = pcm_sample(40);
    s.flags = 1;
    s.loop_begin = 10;
    s.loop_end = 90;
    s.audio = vec![0; 100];
    m.instruments
        .push(s3m2c67::format_s3m::S3MInstrument::Sample(s));
    let conv = Converter::new(&m);
    let (out, _) = conv.convert();
    assert_eq!(out.header.instrument_meta[0].loop_start, 10);
    assert_eq!(out.header.instrument_meta[0].loop_end, 90);
    assert_eq!(out.header.instrument_meta[0].sample_length, 100);
}

#[test]
fn note_encoding_nibbles() {
    // Note 0x5A on a mapped PCM channel: second byte carries octave 5
    // in its high nibble (low 3 bits) and semitone 0xA in its low one.
    let mut m = base_module();
    m.channel_settings = vec![0u8; 32];
    m.channel_settings[0] = 0x80;
    m.instruments
        .push(s3m2c67::format_s3m::S3MInstrument::Sample(pcm_sample(40)));
    let conv = Converter::new(&m);
    let mut pat = empty_pattern();
    pat[0][0].note = 0x5A;
    pat[0][0].instrument = 1;
    pat[0][0].vol = 32;
    let (cmds, warns) = conv.convert_pattern(&pat);
    assert!(warns.is_empty());
    let bytes = s3m2c67::format_c67::serialize_pattern(&cmds);
    assert_eq!(bytes[1] & 0xF, 0xA);
    assert_eq!((bytes[1] >> 4) & 7, 5);
    // Volume nibble: 32 / 4 = 8.
    assert_eq!(bytes[2] & 0xF, 8);
}

#[test]
fn instrument_carries_forward_across_rows() {
    // The carried instrument persists across rows within one pattern: a
    // note without an instrument on row 5 uses the one set on row 0.
    let mut m = base_module();
    m.channel_settings = vec![0u8; 32];
    m.channel_settings[0] = 0x80;
    m.instruments
        .push(s3m2c67::format_s3m::S3MInstrument::Sample(pcm_sample(40)));
    let conv = Converter::new(&m);
    let mut pat = empty_pattern();
    pat[0][0].instrument = 1;
    pat[5][0].note = 0x10;
    let (cmds, warns) = conv.convert_pattern(&pat);
    assert!(warns.is_empty());
    let bytes = s3m2c67::format_c67::serialize_pattern(&cmds);
    // Rows 0..=4 emit only their delays; the note fires on row 5 with
    // the instrument default volume 40 / 4 = 10.
    assert_eq!(&bytes[..10], &[0x40, 1, 0x40, 1, 0x40, 1, 0x40, 1, 0x40, 1]);
    assert_eq!(bytes[10], 0);
    assert_eq!(bytes[11], 0x10);
    assert_eq!(bytes[12], 10);
}

#[test]
fn note_without_any_instrument_is_dropped() {
    let mut m = base_module();
    m.channel_settings = vec![0u8; 32];
    m.channel_settings[0] = 0x80;
    let conv = Converter::new(&m);
    let mut pat = empty_pattern();
    pat[0][0].note = 0x10;
    let (cmds, warns) = conv.convert_pattern(&pat);
    assert_eq!(warns, vec![ConvertWarning::UnmappedInstrument(0)]);
    assert_eq!(cmds.len(), 64 + 1);
}

#[test]
fn note_off_emits_volume_zero() {
    let mut m = base_module();
    m.channel_settings = vec![0u8; 32];
    m.channel_settings[0] = 0x80;
    let conv = Converter::new(&m);
    let mut pat = empty_pattern();
    pat[0][0].note = 254;
    let (cmds, warns) = conv.convert_pattern(&pat);
    assert!(warns.is_empty());
    let bytes = s3m2c67::format_c67::serialize_pattern(&cmds);
    // SetVolume on PCM channel 0: selector 0x20, volume 0.
    assert_eq!(bytes[0], 0x20);
    assert_eq!(bytes[1], 0);
}

#[test]
fn note_off_on_unmapped_channel_warns() {
    let mut m = base_module();
    m.channel_settings = vec![0u8; 32];
    let conv = Converter::new(&m);
    let mut pat = empty_pattern();
    pat[0][3].note = 254;
    let (cmds, warns) = conv.convert_pattern(&pat);
    assert_eq!(warns, vec![ConvertWarning::UnmappedChannel(0)]);
    assert_eq!(cmds.len(), 64 + 1);
}

#[test]
fn fm_note_routes_directly() {
    // An FM instrument on a class-18 channel plays on FM slot 2.
    let mut m = base_module();
    m.channel_settings = vec![0u8; 32];
    m.channel_settings[0] = 0x80 | 18;
    let mut a = s3m2c67::format_s3m::S3MAdlibInstrument::default();
    a.volume = 63;
    m.instruments
        .push(s3m2c67::format_s3m::S3MInstrument::Adlib(a));
    let conv = Converter::new(&m);
    let mut pat = empty_pattern();
    pat[0][0].note = 0x21;
    pat[0][0].instrument = 1;
    let (cmds, warns) = conv.convert_pattern(&pat);
    assert!(warns.is_empty());
    let bytes = s3m2c67::format_c67::serialize_pattern(&cmds);
    assert_eq!(bytes[0], 4 + 2); // FM selector
    // Volume 63 / 4 = 15.
    assert_eq!(bytes[2] & 0xF, 15);
}

#[test]
fn percussion_class_is_discarded() {
    let mut m = base_module();
    m.channel_settings = vec![0u8; 32];
    m.channel_settings[0] = 0x80 | 27;
    let a = s3m2c67::format_s3m::S3MAdlibInstrument::default();
    m.instruments
        .push(s3m2c67::format_s3m::S3MInstrument::Adlib(a));
    let conv = Converter::new(&m);
    let mut pat = empty_pattern();
    pat[0][0].note = 0x21;
    pat[0][0].instrument = 1;
    let (cmds, warns) = conv.convert_pattern(&pat);
    assert!(warns.is_empty());
    assert_eq!(cmds.len(), 64 + 1);
}

#[test]
fn row_63_events_are_discarded() {
    // Events on row 63 never reach the bytecode: the pattern ends with
    // the special delay and end marker instead.
    let mut m = base_module();
    m.channel_settings = vec![0u8; 32];
    m.channel_settings[0] = 0x80;
    m.instruments
        .push(s3m2c67::format_s3m::S3MInstrument::Sample(pcm_sample(40)));
    let conv = Converter::new(&m);
    let mut pat = empty_pattern();
    pat[63][0].note = 0x10;
    pat[63][0].instrument = 1;
    let (cmds, warns) = conv.convert_pattern(&pat);
    assert!(warns.is_empty());
    let bytes = s3m2c67::format_c67::serialize_pattern(&cmds);
    assert_eq!(bytes.len(), 64 * 2 + 1);
    assert_eq!(bytes[bytes.len() - 1], 0x60);
}

#[test]
fn pattern_capacity_warning() {
    let mut m = base_module();
    m.channel_settings = vec![0u8; 32];
    for _ in 0..130 {
        m.patterns.push(empty_pattern());
    }
    let conv = Converter::new(&m);
    let (out, warns) = conv.convert();
    assert_eq!(warns, vec![ConvertWarning::PatternCapacity]);
    assert_eq!(out.header.pattern_pointers.list.len(), 128);
}

#[test]
fn speed_is_copied_and_loop_order_zero() {
    let mut m = base_module();
    m.channel_settings = vec![0u8; 32];
    m.initial_speed = 6;
    let conv = Converter::new(&m);
    let (out, _) = conv.convert();
    assert_eq!(out.header.speed, 6);
    assert_eq!(out.header.loop_order, 0);
}

#[test]
fn fm_instrument_on_pcm_channel_is_dropped() {
    // An FM instrument cannot play on a PCM-class channel: the note is
    // discarded with a channel warning.
    let mut m = base_module();
    m.channel_settings = vec![0u8; 32];
    m.channel_settings[0] = 0x80; // enabled, class 0
    let a = s3m2c67::format_s3m::S3MAdlibInstrument::default();
    m.instruments
        .push(s3m2c67::format_s3m::S3MInstrument::Adlib(a));
    let conv = Converter::new(&m);
    let mut pat = empty_pattern();
    pat[0][0].note = 0x21;
    pat[0][0].instrument = 1;
    let (cmds, warns) = conv.convert_pattern(&pat);
    assert_eq!(warns, vec![ConvertWarning::UnmappedChannel(0)]);
    assert_eq!(cmds.len(), 64 + 1);
}

#[test]
fn out_of_range_instrument_reference_is_dropped() {
    let mut m = base_module();
    m.channel_settings = vec![0u8; 32];
    m.channel_settings[0] = 0x80;
    m.instruments
        .push(s3m2c67::format_s3m::S3MInstrument::Sample(pcm_sample(40)));
    let conv = Converter::new(&m);
    let mut pat = empty_pattern();
    pat[0][0].note = 0x10;
    pat[0][0].instrument = 9; // only one instrument exists
    let (cmds, warns) = conv.convert_pattern(&pat);
    assert_eq!(warns, vec![ConvertWarning::UnmappedInstrument(9)]);
    assert_eq!(cmds.len(), 64 + 1);
}

#[test]
fn volume_override_without_note() {
    // A bare volume override becomes a volume command; on an FM-class
    // channel the slot is class - 16.
    let mut m = base_module();
    m.channel_settings = vec![0u8; 32];
    m.channel_settings[0] = 0x80 | 17;
    let conv = Converter::new(&m);
    let mut pat = empty_pattern();
    pat[0][0].vol = 60;
    let (cmds, warns) = conv.convert_pattern(&pat);
    assert!(warns.is_empty());
    let bytes = s3m2c67::format_c67::serialize_pattern(&cmds);
    assert_eq!(bytes[0], 0x24 + 1);
    assert_eq!(bytes[1], 15); // 60 / 4
}

#[test]
fn playlist_overflow_warns() {
    let mut m = base_module();
    m.channel_settings = vec![0u8; 32];
    m.orders = vec![1u8; 300];
    let conv = Converter::new(&m);
    let (out, warns) = conv.convert();
    assert_eq!(warns, vec![ConvertWarning::PlaylistCapacity]);
    for i in 0..256 {
        assert_eq!(out.header.playlist[i], 1);
    }
}

#[test]
fn mixed_instrument_classes_keep_their_orders() {
    // Sample and FM instruments are numbered independently in
    // first-seen order.
    let mut m = base_module();
    m.channel_settings = vec![0u8; 32];
    m.channel_settings[0] = 0x80; // PCM class 0
    m.channel_settings[1] = 0x80 | 16; // FM class 16
    let a = s3m2c67::format_s3m::S3MAdlibInstrument::default();
    m.instruments
        .push(s3m2c67::format_s3m::S3MInstrument::Adlib(a));
    m.instruments
        .push(s3m2c67::format_s3m::S3MInstrument::Sample(pcm_sample(40)));
    let conv = Converter::new(&m);
    let mut pat = empty_pattern();
    // The sample (source slot 2) is PCM instrument 0 of the target.
    pat[0][0].note = 0x10;
    pat[0][0].instrument = 2;
    pat[0][0].vol = 4;
    // The FM voice (source slot 1) is FM instrument 0 of the target.
    pat[0][1].note = 0x10;
    pat[0][1].instrument = 1;
    pat[0][1].vol = 4;
    let (cmds, warns) = conv.convert_pattern(&pat);
    assert!(warns.is_empty());
    let bytes = s3m2c67::format_c67::serialize_pattern(&cmds);
    // PCM note: selector 0, octave 1, instrument nibble 0, volume 1.
    assert_eq!(&bytes[..3], &[0x00, 0x10, 0x01]);
    // FM note on slot 0: selector 4, instrument nibble 0, volume 1.
    assert_eq!(&bytes[3..6], &[0x04, 0x10, 0x01]);
}

#[test]
fn source_ok_checks_shape() {
    let mut m = base_module();
    assert!(s3m2c67::conversion::source_ok(&m));
    m.channel_settings = vec![0u8; 31];
    assert!(!s3m2c67::conversion::source_ok(&m));
    m.channel_settings = vec![0u8; 32];
    m.patterns.push(Vec::new());
    assert!(!s3m2c67::conversion::source_ok(&m));
}
