//! A small disk in memory, and the commands of a USB mass-storage host.
//!
//! The disk has 128 blocks of 512 bytes and holds a FAT16 volume with one
//! file, `HELLO`, whose content is `world`. It is read-only: writes are
//! ignored. The host speaks to it by command blocks, each answered by a
//! status block.

use vstd::prelude::*;

verus! {

pub const BLOCK_SIZE: usize = 512;

pub const BLOCK_COUNT: usize = 128;

pub const TOTAL_SIZE: usize = 65536;

pub const BOOT_SECTOR: usize = 0;

pub const FAT1_SECTOR: usize = 1;

pub const FAT2_SECTOR: usize = 2;

pub const ROOT_DIR_SECTOR: usize = 3;

pub const DATA_START_SECTOR: usize = 4;

/// A 16-bit value as two bytes, the low byte first.
pub open spec fn le_bytes_u16(value: u16) -> Seq<u8> {
    seq![(value % 256) as u8, (value / 256) as u8]
}

/// A 32-bit value as four bytes, the low byte first.
pub open spec fn le_bytes_u32(value: u32) -> Seq<u8> {
    seq![
        (value % 256) as u8,
        (value / 256 % 256) as u8,
        (value / 65536 % 256) as u8,
        (value / 16777216) as u8,
    ]
}

/// A 32-bit value as four bytes, the high byte first.
pub open spec fn be_bytes_u32(value: u32) -> Seq<u8> {
    seq![
        (value / 16777216) as u8,
        (value / 65536 % 256) as u8,
        (value / 256 % 256) as u8,
        (value % 256) as u8,
    ]
}

/// The 32-bit value of four bytes from `at`, the low byte first.
pub open spec fn le_u32_at(bytes: Seq<u8>, at: int) -> u32 {
    (bytes[at] + 256 * bytes[at + 1] + 65536 * bytes[at + 2] + 16777216 * bytes[at + 3]) as u32
}

/// The 32-bit value of four bytes from `at`, the high byte first.
pub open spec fn be_u32_at(bytes: Seq<u8>, at: int) -> u32 {
    (16777216 * bytes[at] + 65536 * bytes[at + 1] + 256 * bytes[at + 2] + bytes[at + 3]) as u32
}

/// The 16-bit value of two bytes from `at`, the high byte first.
pub open spec fn be_u16_at(bytes: Seq<u8>, at: int) -> u16 {
    (256 * bytes[at] + bytes[at + 1]) as u16
}

/// `storage` with `bytes` written from `at` on.
pub open spec fn written(storage: Seq<u8>, at: int, bytes: Seq<u8>) -> Seq<u8> {
    Seq::new(
        storage.len(),
        |i: int|
            if at <= i < at + bytes.len() {
                bytes[i - at]
            } else {
                storage[i]
            },
    )
}

/// The text `NUMCAL  `, the name of the system that made the volume.
pub open spec fn oem_name() -> Seq<u8> {
    seq![0x4Eu8, 0x55, 0x4D, 0x43, 0x41, 0x4C, 0x20, 0x20]
}

/// The text `NUMCAL     `, the label of the volume.
pub open spec fn volume_label() -> Seq<u8> {
    seq![0x4Eu8, 0x55, 0x4D, 0x43, 0x41, 0x4C, 0x20, 0x20, 0x20, 0x20, 0x20]
}

/// The text `FAT16   `.
pub open spec fn filesystem_type() -> Seq<u8> {
    seq![0x46u8, 0x41, 0x54, 0x31, 0x36, 0x20, 0x20, 0x20]
}

/// The text `HELLO   ` and an empty extension.
pub open spec fn file_name() -> Seq<u8> {
    seq![0x48u8, 0x45, 0x4C, 0x4C, 0x4F, 0x20, 0x20, 0x20, 0x20, 0x20, 0x20]
}

/// The text `world`.
pub open spec fn file_content() -> Seq<u8> {
    seq![0x77u8, 0x6F, 0x72, 0x6C, 0x64]
}

/// The disk with the boot sector written: jump and name, the parameters of
/// the volume, and the boot signature.
pub open spec fn with_boot_sector(storage: Seq<u8>) -> Seq<u8> {
    let s = written(storage, 0, seq![0xEBu8, 0x3C, 0x90]);
    let s = written(s, 3, oem_name());
    // bytes per sector, sectors per cluster, reserved sectors, number of FATs
    let s = written(s, 11, le_bytes_u16(512));
    let s = written(s, 13, seq![1u8]);
    let s = written(s, 14, le_bytes_u16(1));
    let s = written(s, 16, seq![2u8]);
    // root directory entries, total sectors, media descriptor
    let s = written(s, 17, le_bytes_u16(16));
    let s = written(s, 19, le_bytes_u16(128));
    let s = written(s, 21, seq![0xF8u8]);
    // sectors per FAT, sectors per track, heads, hidden sectors, large sector count
    let s = written(s, 22, le_bytes_u16(1));
    let s = written(s, 24, le_bytes_u16(1));
    let s = written(s, 26, le_bytes_u16(1));
    let s = written(s, 28, le_bytes_u32(0));
    let s = written(s, 32, le_bytes_u32(0));
    // drive number, reserved, extended boot signature, serial number
    let s = written(s, 36, seq![0x80u8, 0x00, 0x29]);
    let s = written(s, 39, le_bytes_u32(0x12345678));
    let s = written(s, 43, volume_label());
    let s = written(s, 54, filesystem_type());
    written(s, 510, seq![0x55u8, 0xAA])
}

/// The disk with both allocation tables written: the media descriptor, the
/// end-of-chain marks, and cluster 2 as the end of its chain. The second
/// table is a copy of the first.
pub open spec fn with_fat_tables(storage: Seq<u8>) -> Seq<u8> {
    let s = written(storage, 512, seq![0xF8u8, 0xFF, 0xFF, 0xFF, 0xFF, 0xFF]);
    written(s, 1024, s.subrange(512, 1024))
}

/// The disk with the root directory written: the one entry, of the file
/// `HELLO`, which starts at cluster 2 and has 5 bytes.
pub open spec fn with_root_directory(storage: Seq<u8>) -> Seq<u8> {
    let s = written(storage, 1536, file_name());
    let s = written(s, 1547, seq![0x20u8]);
    let s = written(s, 1548, seq![0u8, 0, 0, 0, 0, 0, 0, 0, 0, 0]);
    let s = written(s, 1558, le_bytes_u16(0x0000));
    let s = written(s, 1560, le_bytes_u16(0x0021));
    let s = written(s, 1562, le_bytes_u16(2));
    written(s, 1564, le_bytes_u32(5))
}

/// The disk with the content of the file written, at the first data sector.
pub open spec fn with_file_data(storage: Seq<u8>) -> Seq<u8> {
    written(storage, 2048, file_content())
}

/// The disk after formatting.
pub open spec fn formatted(storage: Seq<u8>) -> Seq<u8> {
    with_file_data(with_root_directory(with_fat_tables(with_boot_sector(storage))))
}

/// A disk of zeros.
pub open spec fn blank() -> Seq<u8> {
    Seq::new(TOTAL_SIZE as nat, |i: int| 0u8)
}

/// Writes bytes into the storage from `at` on.
fn write_bytes(storage: &mut [u8; 65536], at: usize, bytes: &[u8])
    requires
        at + bytes@.len() <= TOTAL_SIZE,
    ensures
        final(storage)@ == written(old(storage)@, at as int, bytes@),
{
    let mut i: usize = 0;
    while i < bytes.len()
        invariant
            i <= bytes@.len(),
            at + bytes@.len() <= TOTAL_SIZE,
            storage@ == written(old(storage)@, at as int, bytes@.take(i as int)),
        decreases bytes@.len() - i,
    {
        storage[at + i] = bytes[i];
        assert(storage@ =~= written(old(storage)@, at as int, bytes@.take(i + 1)));
        i += 1;
    }
    assert(bytes@.take(bytes@.len() as int) =~= bytes@);
    assert(storage@ =~= written(old(storage)@, at as int, bytes@));
}

/// The in-memory disk.
pub struct RamBlockDevice {
    storage: [u8; 65536],
}

impl View for RamBlockDevice {
    type V = Seq<u8>;

    closed spec fn view(&self) -> Seq<u8> {
        self.storage@
    }
}

impl RamBlockDevice {
    /// A disk formatted as FAT16, with the file `HELLO` on it.
    pub fn new() -> (device: RamBlockDevice)
        ensures
            device@ == formatted(blank()),
            device@.len() == TOTAL_SIZE,
    {
        let mut device = RamBlockDevice { storage: [0u8; 65536] };
        assert(device.storage@ =~= blank());
        device.format();
        device
    }

    /// Formats the disk and puts the file on it.
    fn format(&mut self)
        ensures
            final(self)@ == formatted(old(self)@),
    {
        self.write_boot_sector();
        self.write_fat_tables();
        self.write_root_directory();
        self.write_file_data();
    }

    fn write_boot_sector(&mut self)
        ensures
            final(self)@ == with_boot_sector(old(self)@),
    {
        let sector = &mut self.storage;
        write_bytes(sector, 0, &[0xEB, 0x3C, 0x90]);
        write_bytes(sector, 3, &[0x4E, 0x55, 0x4D, 0x43, 0x41, 0x4C, 0x20, 0x20]);
        Self::write_le_u16(sector, 11, 512);
        write_bytes(sector, 13, &[1]);
        Self::write_le_u16(sector, 14, 1);
        write_bytes(sector, 16, &[2]);
        Self::write_le_u16(sector, 17, 16);
        Self::write_le_u16(sector, 19, 128);
        write_bytes(sector, 21, &[0xF8]);
        Self::write_le_u16(sector, 22, 1);
        Self::write_le_u16(sector, 24, 1);
        Self::write_le_u16(sector, 26, 1);
        Self::write_le_u32(sector, 28, 0);
        Self::write_le_u32(sector, 32, 0);
        write_bytes(sector, 36, &[0x80, 0x00, 0x29]);
        Self::write_le_u32(sector, 39, 0x12345678);
        write_bytes(
            sector,
            43,
            &[0x4E, 0x55, 0x4D, 0x43, 0x41, 0x4C, 0x20, 0x20, 0x20, 0x20, 0x20],
        );
        write_bytes(sector, 54, &[0x46, 0x41, 0x54, 0x31, 0x36, 0x20, 0x20, 0x20]);
        write_bytes(sector, 510, &[0x55, 0xAA]);
    }

    fn write_fat_tables(&mut self)
        ensures
            final(self)@ == with_fat_tables(old(self)@),
    {
        write_bytes(&mut self.storage, 512, &[0xF8, 0xFF, 0xFF, 0xFF, 0xFF, 0xFF]);
        let ghost first = self.storage@;
        let mut i: usize = 0;
        while i < BLOCK_SIZE
            invariant
                i <= BLOCK_SIZE,
                first.len() == TOTAL_SIZE,
                self.storage@ == written(first, 1024, first.subrange(512, 512 + i as int)),
            decreases BLOCK_SIZE - i,
        {
            let byte = self.storage[512 + i];
            self.storage[1024 + i] = byte;
            assert(self.storage@ =~= written(first, 1024, first.subrange(512, 512 + i + 1)));
            i += 1;
        }
    }

    fn write_root_directory(&mut self)
        ensures
            final(self)@ == with_root_directory(old(self)@),
    {
        let root_dir = &mut self.storage;
        write_bytes(
            root_dir,
            1536,
            &[0x48, 0x45, 0x4C, 0x4C, 0x4F, 0x20, 0x20, 0x20, 0x20, 0x20, 0x20],
        );
        write_bytes(root_dir, 1547, &[0x20]);
        write_bytes(root_dir, 1548, &[0, 0, 0, 0, 0, 0, 0, 0, 0, 0]);
        Self::write_le_u16(root_dir, 1558, 0x0000);
        Self::write_le_u16(root_dir, 1560, 0x0021);
        Self::write_le_u16(root_dir, 1562, 2);
        Self::write_le_u32(root_dir, 1564, 5);
    }

    fn write_file_data(&mut self)
        ensures
            final(self)@ == with_file_data(old(self)@),
    {
        write_bytes(&mut self.storage, 2048, &[0x77, 0x6F, 0x72, 0x6C, 0x64]);
    }

    fn write_le_u16(buf: &mut [u8; 65536], at: usize, value: u16)
        requires
            at + 2 <= TOTAL_SIZE,
        ensures
            final(buf)@ == written(old(buf)@, at as int, le_bytes_u16(value)),
    {
        buf[at] = (value % 256) as u8;
        buf[at + 1] = (value / 256) as u8;
        assert(buf@ =~= written(old(buf)@, at as int, le_bytes_u16(value)));
    }

    fn write_le_u32(buf: &mut [u8; 65536], at: usize, value: u32)
        requires
            at + 4 <= TOTAL_SIZE,
        ensures
            final(buf)@ == written(old(buf)@, at as int, le_bytes_u32(value)),
    {
        buf[at] = (value % 256) as u8;
        buf[at + 1] = (value / 256 % 256) as u8;
        buf[at + 2] = (value / 65536 % 256) as u8;
        buf[at + 3] = (value / 16777216) as u8;
        assert(buf@ =~= written(old(buf)@, at as int, le_bytes_u32(value)));
    }

    /// Copies a block into the first 512 bytes of `buf`. A block beyond the
    /// end of the disk leaves `buf` as it is.
    pub fn read_block(&self, block: u32, buf: &mut [u8])
        requires
            block < BLOCK_COUNT ==> old(buf)@.len() >= BLOCK_SIZE,
        ensures
            final(buf)@ == if block < BLOCK_COUNT {
                written(
                    old(buf)@,
                    0,
                    self@.subrange(block * BLOCK_SIZE, block * BLOCK_SIZE + BLOCK_SIZE),
                )
            } else {
                old(buf)@
            },
    {
        if block as usize >= BLOCK_COUNT {
            return;
        }
        let offset = block as usize * BLOCK_SIZE;
        let mut i: usize = 0;
        while i < BLOCK_SIZE
            invariant
                i <= BLOCK_SIZE,
                offset + BLOCK_SIZE <= TOTAL_SIZE,
                buf@.len() == old(buf)@.len(),
                buf@.len() >= BLOCK_SIZE,
                buf@ == written(old(buf)@, 0, self.storage@.subrange(offset as int, offset + i)),
            decreases BLOCK_SIZE - i,
        {
            buf[i] = self.storage[offset + i];
            assert(buf@ =~= written(
                old(buf)@,
                0,
                self.storage@.subrange(offset as int, offset + i + 1),
            ));
            i += 1;
        }
    }

    /// The disk is read-only: a write changes nothing.
    pub fn write_block(&mut self, _block: u32, _buf: &[u8])
        ensures
            final(self)@ == old(self)@,
    {
    }

    pub fn block_count(&self) -> (count: u32)
        ensures
            count == BLOCK_COUNT,
    {
        128
    }

    pub fn block_size(&self) -> (size: u32)
        ensures
            size == BLOCK_SIZE,
    {
        512
    }
}

/// `USBC`, the mark of a command block.
pub const CBW_SIGNATURE: u32 = 0x43425355;

/// Bytes of a command block.
pub const CBW_LENGTH: usize = 31;

/// Bytes of a status block.
pub const CSW_LENGTH: usize = 13;

/// A SCSI command, as far as the disk tells them apart.
#[derive(Clone, Copy, Debug, PartialEq, Eq, Structural)]
pub enum ScsiCommand {
    TestUnitReady,
    Inquiry,
    ReadCapacity,
    Read { lba: u32, block_count: u16 },
    Write { lba: u32, block_count: u16 },
    ModeSense,
    Unsupported(u8),
}

/// A command block: its tag, the bytes the host expects to move, and the
/// command.
#[derive(Clone, Copy, Debug, PartialEq, Eq, Structural)]
pub struct CommandBlock {
    pub tag: u32,
    pub data_transfer_length: u32,
    pub command: ScsiCommand,
}

/// The command in a command block, whose bytes start at 15.
pub open spec fn command_of(cbw: Seq<u8>) -> ScsiCommand {
    let code = cbw[15];
    let lba = be_u32_at(cbw, 17);
    let block_count = be_u16_at(cbw, 22);
    if code == 0x00 {
        ScsiCommand::TestUnitReady
    } else if code == 0x12 {
        ScsiCommand::Inquiry
    } else if code == 0x25 {
        ScsiCommand::ReadCapacity
    } else if code == 0x28 {
        ScsiCommand::Read { lba, block_count }
    } else if code == 0x2A {
        ScsiCommand::Write { lba, block_count }
    } else if code == 0x1A {
        ScsiCommand::ModeSense
    } else {
        ScsiCommand::Unsupported(code)
    }
}

/// What a command block says, if it bears the mark of one.
pub open spec fn parsed_cbw(cbw: Seq<u8>) -> Option<CommandBlock> {
    if le_u32_at(cbw, 0) != CBW_SIGNATURE {
        None
    } else {
        Some(
            CommandBlock {
                tag: le_u32_at(cbw, 4),
                data_transfer_length: le_u32_at(cbw, 8),
                command: command_of(cbw),
            },
        )
    }
}

/// The status of a command: 0 for done, 1 for a command that is not
/// supported.
pub open spec fn status_of(command: ScsiCommand) -> u8 {
    match command {
        ScsiCommand::Unsupported(_) => 1,
        _ => 0,
    }
}

/// The bytes that the disk moves for a command.
pub open spec fn data_len_of(command: ScsiCommand) -> u32 {
    match command {
        ScsiCommand::TestUnitReady => 0,
        ScsiCommand::Inquiry => 36,
        ScsiCommand::ReadCapacity => 8,
        ScsiCommand::Read { lba, block_count } => (block_count * 512) as u32,
        ScsiCommand::Write { lba, block_count } => 0,
        ScsiCommand::ModeSense => 4,
        ScsiCommand::Unsupported(_) => 0,
    }
}

/// The bytes that the host expected and the disk did not move.
pub open spec fn residue_of(expected: u32, moved: u32) -> u32 {
    if expected >= moved {
        (expected - moved) as u32
    } else {
        0
    }
}

/// A status block: the mark `USBS`, the tag of the command, the residue, and
/// the status.
pub open spec fn csw_bytes(tag: u32, data_residue: u32, status: u8) -> Seq<u8> {
    seq![0x55u8, 0x53, 0x42, 0x53] + le_bytes_u32(tag) + le_bytes_u32(data_residue) + seq![
        status,
    ]
}

/// The answer to an inquiry: a removable direct-access device, `NumCal  `,
/// `Flash Drive     `, revision `1.0 `.
pub open spec fn inquiry_bytes() -> Seq<u8> {
    seq![0x00u8, 0x80, 0x04, 0x02, 31, 0, 0, 0]
    // NumCal
     + seq![0x4Eu8, 0x75, 0x6D, 0x43, 0x61, 0x6C, 0x20, 0x20]
    // Flash Drive
     + seq![
        0x46u8,
        0x6C,
        0x61,
        0x73,
        0x68,
        0x20,
        0x44,
        0x72,
        0x69,
        0x76,
        0x65,
        0x20,
        0x20,
        0x20,
        0x20,
        0x20,
    ]
    // 1.0
     + seq![0x31u8, 0x2E, 0x30, 0x20]
}

fn read_le_u32(bytes: &[u8], at: usize) -> (value: u32)
    requires
        at + 4 <= bytes@.len(),
    ensures
        value == le_u32_at(bytes@, at as int),
{
    bytes[at] as u32 + 256 * (bytes[at + 1] as u32) + 65536 * (bytes[at + 2] as u32) + 16777216
        * (bytes[at + 3] as u32)
}

fn read_be_u32(bytes: &[u8], at: usize) -> (value: u32)
    requires
        at + 4 <= bytes@.len(),
    ensures
        value == be_u32_at(bytes@, at as int),
{
    16777216 * (bytes[at] as u32) + 65536 * (bytes[at + 1] as u32) + 256 * (bytes[at + 2] as u32)
        + bytes[at + 3] as u32
}

fn read_be_u16(bytes: &[u8], at: usize) -> (value: u16)
    requires
        at + 2 <= bytes@.len(),
    ensures
        value == be_u16_at(bytes@, at as int),
{
    256 * (bytes[at] as u16) + bytes[at + 1] as u16
}

/// Reads a command block of 31 bytes. A block without the mark `USBC` is
/// refused.
pub fn parse_cbw(cbw: &[u8]) -> (r: Result<CommandBlock, ()>)
    requires
        cbw@.len() >= CBW_LENGTH,
    ensures
        r is Ok <==> parsed_cbw(cbw@) is Some,
        r matches Ok(block) ==> parsed_cbw(cbw@) == Some(block),
{
    let signature = read_le_u32(cbw, 0);
    if signature != CBW_SIGNATURE {
        return Err(());
    }
    let tag = read_le_u32(cbw, 4);
    let data_transfer_length = read_le_u32(cbw, 8);
    let code = cbw[15];
    let command = if code == 0x00 {
        ScsiCommand::TestUnitReady
    } else if code == 0x12 {
        ScsiCommand::Inquiry
    } else if code == 0x25 {
        ScsiCommand::ReadCapacity
    } else if code == 0x28 {
        ScsiCommand::Read { lba: read_be_u32(cbw, 17), block_count: read_be_u16(cbw, 22) }
    } else if code == 0x2A {
        ScsiCommand::Write { lba: read_be_u32(cbw, 17), block_count: read_be_u16(cbw, 22) }
    } else if code == 0x1A {
        ScsiCommand::ModeSense
    } else {
        ScsiCommand::Unsupported(code)
    };
    Ok(CommandBlock { tag, data_transfer_length, command })
}

impl ScsiCommand {
    /// The status that answers the command.
    pub fn status(&self) -> (status: u8)
        ensures
            status == status_of(*self),
    {
        match self {
            ScsiCommand::Unsupported(_) => 1,
            _ => 0,
        }
    }

    /// The bytes that the disk moves for the command.
    pub fn data_len(&self) -> (length: u32)
        ensures
            length == data_len_of(*self),
    {
        match self {
            ScsiCommand::TestUnitReady => 0,
            ScsiCommand::Inquiry => 36,
            ScsiCommand::ReadCapacity => 8,
            ScsiCommand::Read { lba, block_count } => *block_count as u32 * 512,
            ScsiCommand::Write { lba, block_count } => 0,
            ScsiCommand::ModeSense => 4,
            ScsiCommand::Unsupported(_) => 0,
        }
    }
}

impl CommandBlock {
    /// The status block that answers the command block.
    pub fn status_block(&self) -> (csw: [u8; 13])
        ensures
            csw@ == csw_bytes(
                self.tag,
                residue_of(self.data_transfer_length, data_len_of(self.command)),
                status_of(self.command),
            ),
    {
        let moved = self.command.data_len();
        let residue = if self.data_transfer_length >= moved {
            self.data_transfer_length - moved
        } else {
            0
        };
        build_csw(self.tag, residue, self.command.status())
    }
}

/// The answer to an inquiry.
pub fn inquiry_response() -> (response: [u8; 36])
    ensures
        response@ == inquiry_bytes(),
{
    let response = [
        0x00,
        0x80,
        0x04,
        0x02,
        31,
        0,
        0,
        0,
        0x4E,
        0x75,
        0x6D,
        0x43,
        0x61,
        0x6C,
        0x20,
        0x20,
        0x46,
        0x6C,
        0x61,
        0x73,
        0x68,
        0x20,
        0x44,
        0x72,
        0x69,
        0x76,
        0x65,
        0x20,
        0x20,
        0x20,
        0x20,
        0x20,
        0x31,
        0x2E,
        0x30,
        0x20,
    ];
    assert(response@ =~= inquiry_bytes());
    response
}

/// The answer to a request for the capacity: the number of the last block
/// and the size of a block, each the high byte first.
pub fn read_capacity_response(device: &RamBlockDevice) -> (response: [u8; 8])
    ensures
        response@ == be_bytes_u32((BLOCK_COUNT - 1) as u32) + be_bytes_u32(BLOCK_SIZE as u32),
{
    let last_lba = device.block_count() - 1;
    let block_size = device.block_size();
    let response = [
        (last_lba / 16777216) as u8,
        (last_lba / 65536 % 256) as u8,
        (last_lba / 256 % 256) as u8,
        (last_lba % 256) as u8,
        (block_size / 16777216) as u8,
        (block_size / 65536 % 256) as u8,
        (block_size / 256 % 256) as u8,
        (block_size % 256) as u8,
    ];
    assert(response@ =~= be_bytes_u32(127) + be_bytes_u32(512));
    response
}

/// The answer to a mode sense: a header of four bytes and nothing after it.
pub fn mode_sense_response() -> (response: [u8; 4])
    ensures
        response@ == seq![0x03u8, 0x00, 0x00, 0x00],
{
    let response = [0x03, 0x00, 0x00, 0x00];
    assert(response@ =~= seq![0x03u8, 0x00, 0x00, 0x00]);
    response
}

/// A status block.
pub fn build_csw(tag: u32, data_residue: u32, status: u8) -> (csw: [u8; 13])
    ensures
        csw@ == csw_bytes(tag, data_residue, status),
{
    let csw = [
        0x55,
        0x53,
        0x42,
        0x53,
        (tag % 256) as u8,
        (tag / 256 % 256) as u8,
        (tag / 65536 % 256) as u8,
        (tag / 16777216) as u8,
        (data_residue % 256) as u8,
        (data_residue / 256 % 256) as u8,
        (data_residue / 65536 % 256) as u8,
        (data_residue / 16777216) as u8,
        status,
    ];
    assert(csw@ =~= csw_bytes(tag, data_residue, status));
    csw
}

} // verus!
