use s3m2c67::format_c67::{
    C67Module, C67PatternCommand, Channel, PlayNoteCommand, SetVolumeCommand, serialize_pattern,
};
use s3m2c67::format_s3m::S3MAdlibInstrument;

#[test]
fn play_note_command_bytes() {
    let cmd = C67PatternCommand::PlayNote(PlayNoteCommand {
        channel: Channel::PCM(2),
        octave: 3,
        note: 0xA,
        instrument: 0x25,
        volume: 9,
    });
    // Selector, then bit 5 of the instrument | octave | semitone, then
    // instrument low nibble | volume nibble.
    assert_eq!(cmd.serialize(), vec![2, 0x80 | 0x30 | 0x0A, 0x59]);

    let fm = C67PatternCommand::PlayNote(PlayNoteCommand {
        channel: Channel::FM(1),
        octave: 0,
        note: 0,
        instrument: 0,
        volume: 0,
    });
    assert_eq!(fm.serialize(), vec![5, 0, 0]);
}

#[test]
fn set_volume_command_bytes() {
    let pcm = C67PatternCommand::SetVolume(SetVolumeCommand { channel: Channel::PCM(3), volume: 7 });
    assert_eq!(pcm.serialize(), vec![0x23, 7]);
    let fm = C67PatternCommand::SetVolume(SetVolumeCommand { channel: Channel::FM(0), volume: 0x1F });
    // Only the volume nibble is kept.
    assert_eq!(fm.serialize(), vec![0x24, 0xF]);
}

#[test]
fn delay_and_end_bytes() {
    assert_eq!(C67PatternCommand::Delay(64).serialize(), vec![0x40, 64]);
    assert_eq!(C67PatternCommand::End.serialize(), vec![0x60]);
}

#[test]
fn pattern_serialization_concatenates() {
    let cmds = vec![
        C67PatternCommand::SetVolume(SetVolumeCommand { channel: Channel::PCM(0), volume: 1 }),
        C67PatternCommand::Delay(1),
        C67PatternCommand::End,
    ];
    assert_eq!(serialize_pattern(&cmds), vec![0x20, 1, 0x40, 1, 0x60]);
}

#[test]
fn module_layout_is_fixed() {
    let mut m = C67Module::default();
    m.header.speed = 6;
    m.header.loop_order = 0;
    m.pattern_data = vec![0xAA, 0xBB];
    m.sample_data = vec![0xCC];
    let bytes = m.serialize();
    // speed, loop order, 2 filename tables of 416, 32 * 16 bytes of PCM
    // metadata, 32 * 11 bytes of FM metadata, 256-entry playlist, two
    // 128-entry word tables, then the blobs.
    let header_len = 2 + 416 + 32 * 16 + 416 + 32 * 11 + 256 + 128 * 4 + 128 * 4;
    assert_eq!(bytes.len(), header_len + 3);
    assert_eq!(bytes[0], 6);
    assert_eq!(bytes[1], 0);
    // The default PCM metadata slot ends with loop end 0xFFFFF,
    // little-endian, at the slot's last four bytes.
    let meta0 = 2 + 416;
    assert_eq!(&bytes[meta0..meta0 + 8], &[0; 8]);
    assert_eq!(&bytes[meta0 + 12..meta0 + 16], &[0xFF, 0xFF, 0x0F, 0x00]);
    assert_eq!(&bytes[header_len..], &[0xAA, 0xBB, 0xCC]);
}

#[test]
fn fm_register_unpacking() {
    let mut a = S3MAdlibInstrument::default();
    a.d00 = 0b1011_0101; // tremolo, sustain, multiplier 5
    a.d02 = 0b0111_1111; // scale level 0b01, output level 0x3F
    a.d04 = 0x9C;
    a.d06 = 0x31;
    a.d0a = 0b0000_0111; // feedback 3, connection on
    let u = a.to_universal();
    assert_eq!(u.modulator.freq_multiplier, 5);
    assert!(u.modulator.tremolo);
    assert!(!u.modulator.vibrato);
    assert!(u.modulator.enable_sustain);
    assert!(u.modulator.scale_envelope);
    // The two-bit scale field 0b01 is bit-reversed into the byte's top:
    // bit 0 moves to bit 7.
    assert_eq!(u.modulator.scale_level, 0x80);
    assert_eq!(u.modulator.output_level, 0x3F);
    assert_eq!(u.modulator.attack, 9);
    assert_eq!(u.modulator.decay, 0xC);
    assert_eq!(u.modulator.sustain, 3);
    assert_eq!(u.modulator.release, 1);
    assert_eq!(u.modulator.feedback, 3);
    assert!(u.modulator.connection);
    assert_eq!(u.carrier.freq_multiplier, 0);
    assert!(!u.carrier.connection);
}

#[test]
fn adlib_defaults_are_zero() {
    let p = s3m2c67::adlib::AdlibParams::default();
    assert_eq!(p.freq_multiplier, 0);
    assert!(!p.vibrato);
    assert!(!p.connection);
    let i = s3m2c67::adlib::AdlibInstrument::default();
    assert_eq!(i.modulator, p);
    assert_eq!(i.carrier, p);
}

#[test]
fn fm_metadata_scale_bits_swap() {
    // In the packed FM metadata, the two-bit scale field moves to the
    // top of the combined byte with its bits swapped: d02 = 0b10_000001
    // becomes 0b01_000001.
    let mut m = s3m2c67::format_s3m::S3MModule::default();
    let mut a = S3MAdlibInstrument::default();
    a.d02 = 0b1000_0001;
    a.d03 = 0b0100_0010;
    m.instruments
        .push(s3m2c67::format_s3m::S3MInstrument::Adlib(a));
    let conv = s3m2c67::conversion::Converter::new(&m);
    let (out, _) = conv.convert();
    assert_eq!(out.header.adlib_instrument_meta[0].modulator_scale_and_output_level, 0b0100_0001);
    assert_eq!(out.header.adlib_instrument_meta[0].carrier_scale_and_output_level, 0b1000_0010);
}
