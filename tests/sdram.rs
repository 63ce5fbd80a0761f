use daisy_embassy::sdram::{
    log2minus1, memfault_disabled, memfault_enabled, mpu_enabled, read_words, region_attributes,
    sdram_mpu_region, write_words, MpuRegion, SDRAM_SIZE, SDRAM_WORDS,
};

#[test]
fn region_size_field() {
    assert_eq!(log2minus1(32), 4);
    assert_eq!(log2minus1(SDRAM_SIZE as u32), 25);
    assert_eq!(log2minus1(1 << 31), 30);
    // sizes between powers of two round up; small ones take the 32-byte minimum
    assert_eq!(log2minus1(33), 5);
    assert_eq!(log2minus1(1), 4);
    assert_eq!(log2minus1(3 * 1024 * 1024), 21);
    assert_eq!(log2minus1((1 << 31) - 1), 30);
}

#[test]
fn region_attribute_register() {
    assert_eq!(region_attributes(SDRAM_SIZE as u32), 0x0303_0033);
    assert_eq!(region_attributes(32), 0x0303_0009);
    assert_eq!(region_attributes(100), 0x0303_000D);
    assert_eq!(
        sdram_mpu_region(),
        MpuRegion { number: 0, base_address: 0xD000_0000, attributes: 0x0303_0033 }
    );
}

#[test]
fn control_register_updates() {
    assert_eq!(memfault_disabled(0x0007_0000), 0x0006_0000);
    assert_eq!(memfault_enabled(0), 0x0001_0000);
    assert_eq!(mpu_enabled(0), 0x05);
    assert_eq!(mpu_enabled(0x02), 0x07);
}

#[test]
fn window_write_then_read() {
    assert_eq!(SDRAM_WORDS, SDRAM_SIZE / 4);
    let mut window = vec![0u32; SDRAM_WORDS];
    write_words(&mut window, 0, &[1, 2, 3, 4]);
    assert_eq!(read_words(&window, 0, 4), vec![1, 2, 3, 4]);
    write_words(&mut window, SDRAM_WORDS - 2, &[7, 8]);
    assert_eq!(read_words(&window, SDRAM_WORDS - 3, 3), vec![0, 7, 8]);
}
