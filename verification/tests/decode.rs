use s3m2c67::conversion::Converter;
use s3m2c67::format_s3m::{DecodeError, S3MInstrument, S3MModule};

/// A minimal module image: header with magic, `orders` order bytes, one
/// sample pointer and one pattern pointer slot (filled by the caller),
/// and the channel panning table.
fn image(orders: &[u8], samples: u16, patterns: u16) -> Vec<u8> {
    let mut d = vec![0u8; 96];
    d[32] = orders.len() as u8;
    d[34] = samples as u8;
    d[35] = (samples >> 8) as u8;
    d[36] = patterns as u8;
    d[37] = (patterns >> 8) as u8;
    // Magic "SCRM" at offset 44.
    d[44] = 0x53;
    d[45] = 0x43;
    d[46] = 0x52;
    d[47] = 0x4D;
    d.extend_from_slice(orders);
    d.extend_from_slice(&vec![0u8; 2 * samples as usize]); // sample pointers
    d.extend_from_slice(&vec![0u8; 2 * patterns as usize]); // pattern pointers
    d.extend_from_slice(&[0u8; 32]); // channel panning
    d
}

#[test]
fn short_input_is_truncated() {
    let d = vec![0u8; 40];
    assert_eq!(S3MModule::load(&d).err(), Some(DecodeError::Truncated));
}

#[test]
fn wrong_magic_is_format_error() {
    let mut d = image(&[], 0, 0);
    d[44] = b'X';
    assert_eq!(S3MModule::load(&d).err(), Some(DecodeError::Format));
}

#[test]
fn missing_header_tables_are_truncated() {
    let mut d = image(&[], 0, 0);
    d.truncate(100);
    assert_eq!(S3MModule::load(&d).err(), Some(DecodeError::Truncated));
}

#[test]
fn packed_sample_is_rejected() {
    let mut d = image(&[], 1, 0);
    // Point instrument 0 at paragraph 9 (offset 144) and mark it as a
    // packed PCM sample.
    let so = 96;
    d[so] = 9;
    d.resize(9 * 16 + 80, 0);
    d[9 * 16] = 1; // PCM sample
    d[9 * 16 + 30] = 1; // packed
    assert_eq!(S3MModule::load(&d).err(), Some(DecodeError::CompressionUnsupported));
}

#[test]
fn empty_module_decodes() {
    let d = image(&[3, 254, 5], 0, 0);
    let m = S3MModule::load(&d).unwrap();
    assert_eq!(m.order_amount, 3);
    assert_eq!(m.orders, vec![3, 254, 5]);
    assert_eq!(m.sample_amount, 0);
    assert_eq!(m.pattern_amount, 0);
    assert_eq!(m._scrm, 0x4D524353);
}

#[test]
fn header_scalars_decode() {
    let mut d = image(&[], 0, 0);
    d[49] = 6; // initial speed
    d[50] = 125; // initial tempo
    d[42] = 1; // ffi: signed samples
    let m = S3MModule::load(&d).unwrap();
    assert_eq!(m.initial_speed, 6);
    assert_eq!(m.initial_tempo, 125);
    assert_eq!(m.ffi, 1);
    assert_eq!(m.channel_settings.len(), 32);
}

#[test]
fn sixteen_bit_audio_decodes_signed() {
    // One PCM instrument at paragraph 9 with two 16-bit samples at an
    // assembled data offset; ffi = 1 keeps them as-is.
    let mut d = image(&[], 1, 0);
    d[42] = 1;
    d[96] = 9;
    d.resize(0x200, 0);
    let base = 9 * 16;
    d[base] = 1; // PCM
    // memseg: data pointer bytes; middle byte 0x1F places the audio at
    // 0x1F0.
    d[base + 13] = 0;
    d[base + 14] = 0x1F;
    d[base + 15] = 0;
    d[base + 16] = 2; // length
    d[base + 31] = 4; // 16-bit flag
    // Audio at 0x1F0: -256 then 0.
    d[0x1F0] = 0x00;
    d[0x1F1] = 0xFF;
    d[0x1F2] = 0x00;
    d[0x1F3] = 0x00;
    let m = S3MModule::load(&d).unwrap();
    match &m.instruments[0] {
        S3MInstrument::Sample(s) => {
            assert_eq!(s.length, 2);
            assert_eq!(s.audio, vec![-256, 0]);
        },
        S3MInstrument::Adlib(_) => panic!("expected a PCM sample"),
    }
}

#[test]
fn eight_bit_audio_recentres_unsigned() {
    // ffi != 1: an 8-bit byte 0x80 is recentred to 0 and scaled.
    let mut d = image(&[], 1, 0);
    d[96] = 9;
    d.resize(0x200, 0);
    let base = 9 * 16;
    d[base] = 1;
    d[base + 14] = 0x1F;
    d[base + 16] = 2;
    d[0x1F0] = 0x80;
    d[0x1F1] = 0x00;
    let m = S3MModule::load(&d).unwrap();
    match &m.instruments[0] {
        S3MInstrument::Sample(s) => {
            assert_eq!(s.audio, vec![0, -32768]);
        },
        S3MInstrument::Adlib(_) => panic!("expected a PCM sample"),
    }
}

#[test]
fn adlib_instrument_decodes() {
    let mut d = image(&[], 1, 0);
    d[96] = 9;
    d.resize(9 * 16 + 80, 0);
    let base = 9 * 16;
    d[base] = 2; // FM instrument
    for k in 0..12 {
        d[base + 16 + k] = 0x10 + k as u8; // d00..d0b
    }
    d[base + 28] = 48; // volume
    let m = S3MModule::load(&d).unwrap();
    match &m.instruments[0] {
        S3MInstrument::Adlib(a) => {
            assert_eq!(a.d00, 0x10);
            assert_eq!(a.d04, 0x14);
            assert_eq!(a.d0b, 0x1B);
            assert_eq!(a.volume, 48);
        },
        S3MInstrument::Sample(_) => panic!("expected an FM instrument"),
    }
}

#[test]
fn truncated_pattern_is_rejected() {
    let mut d = image(&[], 0, 1);
    let po = 96;
    d[po] = 9;
    d.resize(9 * 16 + 4, 0);
    // Two-byte size field, then a single control byte asking for a
    // note pair that is not there.
    d[9 * 16 + 2] = 0x20 | 3;
    assert_eq!(S3MModule::load(&d).err(), Some(DecodeError::Truncated));
}

#[test]
fn instrument_pointer_past_end_is_truncated() {
    let mut d = image(&[], 1, 0);
    d[96] = 0xFF; // paragraph 0xFF0 is far past the data
    assert_eq!(S3MModule::load(&d).err(), Some(DecodeError::Truncated));
}

#[test]
fn audio_past_end_is_truncated() {
    let mut d = image(&[], 1, 0);
    d[96] = 9;
    d.resize(9 * 16 + 80, 0);
    let base = 9 * 16;
    d[base] = 1; // PCM
    d[base + 14] = 0xFF; // audio pointer far past the data
    d[base + 16] = 4; // length
    assert_eq!(S3MModule::load(&d).err(), Some(DecodeError::Truncated));
}

#[test]
fn pattern_cells_decode() {
    let mut d = image(&[], 0, 1);
    d[96] = 9;
    let base = 9 * 16;
    d.resize(base + 2, 0);
    // Row 0, channel 3: note, instrument and volume; then 64 row ends.
    d.push(0x20 | 0x40 | 3);
    d.push(0x34);
    d.push(1);
    d.push(32);
    for _ in 0..64 {
        d.push(0);
    }
    let m = S3MModule::load(&d).unwrap();
    let p = &m.patterns[0];
    assert_eq!(p.len(), 64);
    assert_eq!(p[0][3].note, 0x34);
    assert_eq!(p[0][3].instrument, 1);
    assert_eq!(p[0][3].vol, 32);
    assert_eq!(p[0][2].note, 255);
    assert_eq!(p[1][3].note, 255);
}

#[test]
fn end_to_end_single_note() {
    // One enabled PCM channel of class 0, one (empty) PCM instrument,
    // one pattern with a single note at row 0 channel 0.
    let mut d = image(&[], 1, 1);
    d[64] = 0x80; // channel 0: enabled, class 0
    d[96] = 0; // instrument 0: empty slot (default PCM sample)
    d[98] = 9; // pattern 0 at paragraph 9
    let base = 9 * 16;
    d.resize(base + 2, 0);
    d.push(0x20 | 0x40); // channel 0, note + volume
    d.push(0x34);
    d.push(1);
    d.push(32);
    for _ in 0..64 {
        d.push(0);
    }

    let m = S3MModule::load(&d).unwrap();
    assert!(s3m2c67::conversion::source_ok(&m));
    let conv = Converter::new(&m);
    let (out, warns) = conv.convert();
    assert!(warns.is_empty());
    let bytes = out.serialize();

    // The pattern blob starts right after the fixed-size header.
    let blob = 2 + 416 + 32 * 16 + 416 + 32 * 11 + 256 + 128 * 4 + 128 * 4;
    // The note: PCM channel 0 selector, packed octave 3 semitone 4,
    // packed instrument 0 volume 8; then one delay per row.
    assert_eq!(&bytes[blob..blob + 5], &[0x00, 0x34, 0x08, 0x40, 0x01]);
    // 63 more delay pairs follow (rows 1..=62 and the row-63 special
    // case), then the end marker: 64 delays in all.
    for r in 0..63 {
        assert_eq!(&bytes[blob + 3 + 2 * (r + 1)..blob + 3 + 2 * (r + 2)], &[0x40, 0x01]);
    }
    assert_eq!(bytes[blob + 3 + 2 * 64], 0x60);
    assert_eq!(out.header.pattern_lengths.list[0], 3 + 2 * 64 + 1);
}
