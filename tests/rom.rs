use gilgamesh::rom::{ROMType, ROM, TITLE};

/// A LoROM image of 32 KiB titled "TEST", with a 2 KiB size byte and the
/// reset vector at $8000.
fn setup_lorom() -> ROM {
    let mut data = vec![0u8; 0x8000];
    let title = TITLE - 0x8000;
    data[title..title + 4].copy_from_slice(b"TEST");
    data[0x7FD7] = 0x01;
    data[0x7FFC] = 0x00;
    data[0x7FFD] = 0x80;
    ROM::from("lorom.sfc".to_string(), data)
}

/// A HiROM image of 64 KiB titled "TEST", with a 2 KiB size byte and the
/// reset vector at $8000.
fn setup_hirom() -> ROM {
    let mut data = vec![0u8; 0x10000];
    data[TITLE..TITLE + 4].copy_from_slice(b"TEST");
    data[0xFFD7] = 0x01;
    data[0xFFFC] = 0x00;
    data[0xFFFD] = 0x80;
    ROM::from("hirom.sfc".to_string(), data)
}

#[test]
fn test_is_ram() {
    assert!(ROM::is_ram(0x000000));
    assert!(ROM::is_ram(0x001FFF));

    assert!(ROM::is_ram(0x7E0000));
    assert!(ROM::is_ram(0x7FFFFF));

    assert!(!ROM::is_ram(0x002000));
    assert!(!ROM::is_ram(0x800000));
    assert!(!ROM::is_ram(0xC00000));
}

#[test]
fn rom_test_discover_type() {
    let (lorom, hirom) = (setup_lorom(), setup_hirom());
    assert_eq!(lorom.rom_type(), ROMType::LoROM);
    assert_eq!(hirom.rom_type(), ROMType::HiROM);
}

#[test]
fn rom_test_actual_size() {
    let (lorom, hirom) = (setup_lorom(), setup_hirom());
    assert_eq!(lorom.actual_size(), 0x8000);
    assert_eq!(hirom.actual_size(), 0x10000);
}

#[test]
fn rom_test_size() {
    let (lorom, hirom) = (setup_lorom(), setup_hirom());
    assert_eq!(lorom.size(), 2048);
    assert_eq!(hirom.size(), 2048);
}

#[test]
fn rom_test_title() {
    let roms = [setup_lorom(), setup_hirom()];
    for rom in roms.iter() {
        assert_eq!(rom.title(), "TEST");
    }
}

#[test]
fn rom_test_translate() {
    let lorom = setup_lorom();
    assert_eq!(lorom.translate(0x008000), 0x000000);
    assert_eq!(lorom.translate(0x808000), 0x000000);

    let hirom = setup_hirom();
    assert_eq!(hirom.translate(0xC00000), 0x000000);
    assert_eq!(hirom.translate(0xC08000), 0x008000);
    assert_eq!(hirom.translate(0x400000), 0x000000);
}

#[test]
fn rom_test_read_byte() {
    let roms = [setup_lorom(), setup_hirom()];
    for rom in roms.iter() {
        assert_eq!(rom.read_byte(TITLE + 0), 0x54);
        assert_eq!(rom.read_byte(TITLE + 1), 0x45);
        assert_eq!(rom.read_byte(TITLE + 2), 0x53);
        assert_eq!(rom.read_byte(TITLE + 3), 0x54);
    }
}

#[test]
fn rom_test_read_word() {
    let roms = [setup_lorom(), setup_hirom()];
    for rom in roms.iter() {
        assert_eq!(rom.read_word(TITLE + 0), 0x4554);
        assert_eq!(rom.read_word(TITLE + 2), 0x5453);
    }
}

#[test]
fn rom_test_read_address() {
    let roms = [setup_lorom(), setup_hirom()];
    for rom in roms.iter() {
        assert_eq!(rom.read_address(TITLE + 0), 0x534554);
        assert_eq!(rom.read_address(TITLE + 1), 0x545345);
    }
}

#[test]
fn rom_test_reset_vector() {
    let (lorom, hirom) = (setup_lorom(), setup_hirom());
    assert_eq!(lorom.reset_vector(), 0x8000);
    assert_eq!(hirom.reset_vector(), 0x8000);
}

#[test]
fn rom_test_nmi_vector() {
    let (lorom, hirom) = (setup_lorom(), setup_hirom());
    assert_eq!(lorom.nmi_vector(), 0x0000);
    assert_eq!(hirom.nmi_vector(), 0x0000);
}

#[test]
fn extended_types_and_translation() {
    let mut data = vec![0u8; 0x10000];
    data[TITLE..TITLE + 4].copy_from_slice(b"TEST");
    data[0xFFD5] = 0b100;
    let exhirom = ROM::from(String::new(), data);
    assert_eq!(exhirom.rom_type(), ROMType::ExHiROM);
    assert_eq!(exhirom.translate(0x008000), 0x408000);
    assert_eq!(exhirom.translate(0xC08000), 0x008000);

    let mut data = vec![0u8; 0x8000];
    data[0x7FD5] = 0b010;
    let exlorom = ROM::from(String::new(), data);
    assert_eq!(exlorom.rom_type(), ROMType::ExLoROM);
    assert_eq!(exlorom.translate(0x808000), 0x000000);
    assert_eq!(exlorom.translate(0x008000), 0x400000);

    let mut data = vec![0u8; 0x10000];
    data[0xFFC0] = 0x01;
    let bad_hirom_title = ROM::from(String::new(), data);
    assert_eq!(bad_hirom_title.rom_type(), ROMType::LoROM);
    assert_eq!(ROM::new().rom_type(), ROMType::Unknown);
    assert!(!ROM::new().is_readable(0x8000));
}
