use daisy_embassy::audio::Fs;
use daisy_embassy::codec::{Codec, CodecModel, CodecRegister, WM8731_BUS_ADDRESS};

fn reg(address: u8, value: u16) -> CodecRegister {
    CodecRegister { address, value }
}

#[test]
fn register_packing() {
    assert_eq!(Codec::write_wm8731_reg(reg(6, 0x62)), [0x0C, 0x62]);
    assert_eq!(Codec::write_wm8731_reg(reg(0, 0x117)), [0x01, 0x17]);
    assert_eq!(Codec::write_wm8731_reg(reg(15, 0)), [0x1E, 0x00]);
    assert_eq!(Codec::write_wm8731_reg(reg(0x7F, 0x1FF)), [0xFF, 0xFF]);
}

#[test]
fn register_packing_matches_formula() {
    for address in 0u8..128 {
        for value in [0u16, 1, 0x80, 0xFF, 0x100, 0x155, 0x1FF] {
            let bytes = Codec::write_wm8731_reg(reg(address, value));
            let b1 = ((address << 1) & 0xFE) | (((value >> 8) & 0x01) as u8);
            let b2 = (value & 0xFF) as u8;
            assert_eq!(bytes, [b1, b2]);
            assert_eq!(bytes[0] >> 1, address);
            assert_eq!((((bytes[0] & 1) as u16) << 8) | bytes[1] as u16, value);
        }
    }
}

#[test]
fn wm8731_setup_sequence() {
    assert_eq!(
        Codec::setup_wm8731(Fs::Fs48000),
        vec![
            reg(15, 0),
            reg(6, 0x72),
            reg(0, 0x117),
            reg(4, 0x12),
            reg(5, 0x06),
            reg(7, 0x09),
            reg(8, 0x00),
            reg(9, 1),
        ]
    );
}

#[test]
fn wm8731_sampling_register_follows_rate() {
    let sampling = |fs| Codec::setup_wm8731(fs)[6];
    assert_eq!(sampling(Fs::Fs8000), reg(8, 0b0011 << 2));
    assert_eq!(sampling(Fs::Fs32000), reg(8, 0b0110 << 2));
    assert_eq!(sampling(Fs::Fs44100), reg(8, 0b1000 << 2));
    assert_eq!(sampling(Fs::Fs88200), reg(8, 0b1111 << 2));
    assert_eq!(sampling(Fs::Fs96000), reg(8, 0b0111 << 2));
}

#[test]
fn output_is_enabled_only_after_setup() {
    assert_eq!(Codec::power_down(false), reg(6, 0x72));
    assert_eq!(Codec::final_power_settings(), reg(6, 0x62));
    assert_eq!(CodecModel::Wm8731.enable_output(), vec![reg(6, 0x62)]);
    assert_eq!(WM8731_BUS_ADDRESS, 0x1a);
}

#[test]
fn pin_configured_codec_needs_no_writes() {
    assert!(CodecModel::Pcm3060.setup(Fs::Fs48000).is_empty());
    assert!(CodecModel::Pcm3060.enable_output().is_empty());
    assert_eq!(CodecModel::Wm8731.setup(Fs::Fs96000).len(), 8);
}
