use numcal::file_system::{
    build_csw, inquiry_response, mode_sense_response, parse_cbw, read_capacity_response,
    CommandBlock, RamBlockDevice, ScsiCommand,
};

fn block(device: &RamBlockDevice, number: u32) -> [u8; 512] {
    let mut buf = [0xAAu8; 512];
    device.read_block(number, &mut buf);
    buf
}

fn cbw(code: u8) -> [u8; 31] {
    let mut bytes = [0u8; 31];
    bytes[..4].copy_from_slice(&[0x55, 0x53, 0x42, 0x43]);
    bytes[4..8].copy_from_slice(&0x11223344u32.to_le_bytes());
    bytes[8..12].copy_from_slice(&4096u32.to_le_bytes());
    bytes[15] = code;
    bytes
}

#[test]
fn boot_sector_describes_the_volume() {
    let device = RamBlockDevice::new();
    let boot = block(&device, 0);
    assert_eq!(&boot[0..3], [0xEB, 0x3C, 0x90]);
    assert_eq!(&boot[3..11], b"NUMCAL  ");
    assert_eq!(u16::from_le_bytes([boot[11], boot[12]]), 512);
    assert_eq!(boot[13], 1);
    assert_eq!(u16::from_le_bytes([boot[14], boot[15]]), 1);
    assert_eq!(boot[16], 2);
    assert_eq!(u16::from_le_bytes([boot[17], boot[18]]), 16);
    assert_eq!(u16::from_le_bytes([boot[19], boot[20]]), 128);
    assert_eq!(boot[21], 0xF8);
    assert_eq!(u16::from_le_bytes([boot[22], boot[23]]), 1);
    assert_eq!(u16::from_le_bytes([boot[24], boot[25]]), 1);
    assert_eq!(u16::from_le_bytes([boot[26], boot[27]]), 1);
    assert_eq!(&boot[28..36], [0; 8]);
    assert_eq!(&boot[36..39], [0x80, 0x00, 0x29]);
    assert_eq!(u32::from_le_bytes([boot[39], boot[40], boot[41], boot[42]]), 0x12345678);
    assert_eq!(&boot[43..54], b"NUMCAL     ");
    assert_eq!(&boot[54..62], b"FAT16   ");
    assert_eq!(&boot[62..510], [0u8; 448]);
    assert_eq!(&boot[510..512], [0x55, 0xAA]);
}

#[test]
fn both_tables_mark_the_chain_of_the_file() {
    let device = RamBlockDevice::new();
    let first = block(&device, 1);
    let second = block(&device, 2);
    assert_eq!(&first[..6], [0xF8, 0xFF, 0xFF, 0xFF, 0xFF, 0xFF]);
    assert_eq!(&first[6..], [0u8; 506]);
    assert_eq!(first, second);
}

#[test]
fn root_directory_lists_the_file() {
    let device = RamBlockDevice::new();
    let root = block(&device, 3);
    assert_eq!(&root[0..11], b"HELLO      ");
    assert_eq!(root[11], 0x20);
    assert_eq!(&root[12..22], [0; 10]);
    assert_eq!(u16::from_le_bytes([root[22], root[23]]), 0x0000);
    assert_eq!(u16::from_le_bytes([root[24], root[25]]), 0x0021);
    assert_eq!(u16::from_le_bytes([root[26], root[27]]), 2);
    assert_eq!(u32::from_le_bytes([root[28], root[29], root[30], root[31]]), 5);
    assert_eq!(&root[32..], [0u8; 480]);
}

#[test]
fn file_holds_its_content() {
    let device = RamBlockDevice::new();
    let data = block(&device, 4);
    assert_eq!(&data[..5], b"world");
    assert_eq!(&data[5..], [0u8; 507]);
    for number in 5..128 {
        assert_eq!(block(&device, number), [0u8; 512]);
    }
}

#[test]
fn block_past_the_end_is_not_read() {
    let device = RamBlockDevice::new();
    assert_eq!(block(&device, 128), [0xAA; 512]);
    assert_eq!(block(&device, u32::MAX), [0xAA; 512]);
    let mut short = [7u8; 3];
    device.read_block(500, &mut short);
    assert_eq!(short, [7; 3]);
}

#[test]
fn read_fills_the_first_block_of_the_buffer() {
    let device = RamBlockDevice::new();
    let mut buf = [0x11u8; 520];
    device.read_block(4, &mut buf);
    assert_eq!(&buf[..5], b"world");
    assert_eq!(&buf[5..512], [0u8; 507]);
    assert_eq!(&buf[512..], [0x11; 8]);
}

#[test]
fn writes_are_ignored() {
    let mut device = RamBlockDevice::new();
    device.write_block(4, &[0xFF; 512]);
    device.write_block(0, &[0xFF; 512]);
    assert_eq!(&block(&device, 4)[..5], b"world");
    assert_eq!(&block(&device, 0)[510..], [0x55, 0xAA]);
    assert_eq!(device.block_count(), 128);
    assert_eq!(device.block_size(), 512);
}

#[test]
fn command_block_is_read() {
    let parsed = parse_cbw(&cbw(0x00)).unwrap();
    assert_eq!(
        parsed,
        CommandBlock {
            tag: 0x11223344,
            data_transfer_length: 4096,
            command: ScsiCommand::TestUnitReady
        }
    );
    assert_eq!(parse_cbw(&cbw(0x12)).unwrap().command, ScsiCommand::Inquiry);
    assert_eq!(parse_cbw(&cbw(0x25)).unwrap().command, ScsiCommand::ReadCapacity);
    assert_eq!(parse_cbw(&cbw(0x1A)).unwrap().command, ScsiCommand::ModeSense);
    assert_eq!(parse_cbw(&cbw(0x35)).unwrap().command, ScsiCommand::Unsupported(0x35));
    let mut read = cbw(0x28);
    read[17..21].copy_from_slice(&0x01020304u32.to_be_bytes());
    read[22..24].copy_from_slice(&0x0506u16.to_be_bytes());
    assert_eq!(
        parse_cbw(&read).unwrap().command,
        ScsiCommand::Read { lba: 0x01020304, block_count: 0x0506 }
    );
    read[15] = 0x2A;
    assert_eq!(
        parse_cbw(&read).unwrap().command,
        ScsiCommand::Write { lba: 0x01020304, block_count: 0x0506 }
    );
}

#[test]
fn command_block_without_the_mark_is_refused() {
    let mut bytes = cbw(0x00);
    bytes[3] = 0x53;
    assert_eq!(parse_cbw(&bytes), Err(()));
    assert_eq!(parse_cbw(&[0u8; 31]), Err(()));
}

#[test]
fn commands_have_status_and_length() {
    let commands = [
        (ScsiCommand::TestUnitReady, 0, 0),
        (ScsiCommand::Inquiry, 0, 36),
        (ScsiCommand::ReadCapacity, 0, 8),
        (ScsiCommand::Read { lba: 4, block_count: 3 }, 0, 1536),
        (ScsiCommand::Read { lba: 0, block_count: 0xFFFF }, 0, 33553920),
        (ScsiCommand::Write { lba: 4, block_count: 3 }, 0, 0),
        (ScsiCommand::ModeSense, 0, 4),
        (ScsiCommand::Unsupported(0x35), 1, 0),
    ];
    for (command, status, length) in commands {
        assert_eq!(command.status(), status);
        assert_eq!(command.data_len(), length);
    }
}

#[test]
fn status_block_carries_tag_residue_and_status() {
    assert_eq!(
        build_csw(0x11223344, 0x0A0B0C0D, 1),
        [0x55, 0x53, 0x42, 0x53, 0x44, 0x33, 0x22, 0x11, 0x0D, 0x0C, 0x0B, 0x0A, 1]
    );
    let block = parse_cbw(&cbw(0x12)).unwrap();
    assert_eq!(
        block.status_block(),
        [0x55, 0x53, 0x42, 0x53, 0x44, 0x33, 0x22, 0x11, 0xDC, 0x0F, 0, 0, 0]
    );
    let short = CommandBlock { tag: 1, data_transfer_length: 2, command: ScsiCommand::ReadCapacity };
    assert_eq!(
        short.status_block(),
        [0x55, 0x53, 0x42, 0x53, 1, 0, 0, 0, 0, 0, 0, 0, 0]
    );
    let unknown = CommandBlock {
        tag: 0xFFFFFFFF,
        data_transfer_length: 7,
        command: ScsiCommand::Unsupported(9),
    };
    assert_eq!(
        unknown.status_block(),
        [0x55, 0x53, 0x42, 0x53, 0xFF, 0xFF, 0xFF, 0xFF, 7, 0, 0, 0, 1]
    );
}

#[test]
fn answers_to_the_host() {
    let inquiry = inquiry_response();
    assert_eq!(&inquiry[..8], [0x00, 0x80, 0x04, 0x02, 31, 0, 0, 0]);
    assert_eq!(&inquiry[8..16], b"NumCal  ");
    assert_eq!(&inquiry[16..32], b"Flash Drive     ");
    assert_eq!(&inquiry[32..36], b"1.0 ");
    let device = RamBlockDevice::new();
    assert_eq!(read_capacity_response(&device), [0, 0, 0, 127, 0, 0, 2, 0]);
    assert_eq!(mode_sense_response(), [3, 0, 0, 0]);
}
