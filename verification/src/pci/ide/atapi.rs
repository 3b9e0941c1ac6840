//! ATAPI drives: the SCSI packets sent to them and what their answers
//! mean.

use vstd::prelude::*;

use crate::pci::ide::device::IDEDevice;

verus! {

/// The sector size of ATAPI drives.
pub const SECTOR_SIZE: u32 = 2048;

/// SCSI command codes.
pub const ATAPI_CAPACITY: u8 = 0x25;

pub const ATAPI_READ: u8 = 0xa8;

pub const ATAPI_EJECT: u8 = 0x1b;

/// The four bytes of `lba`, most significant first, at bytes 2 to 5 of a
/// packet.
pub open spec fn packet_with(code: u8, lba: u32, count: u8) -> [u8; 12] {
    [
        code,
        0,
        (lba / 16777216) as u8,
        ((lba / 65536) % 256) as u8,
        ((lba / 256) % 256) as u8,
        (lba % 256) as u8,
        0,
        0,
        0,
        count,
        0,
        0,
    ]
}

/// The drive's capacity in units of 512 bytes, from the last block
/// address and the block size it answers (both as read, big-endian).
pub open spec fn capacity_of(last_lba: u32, block_size: u32) -> int {
    (((swap_bytes(last_lba) + 1) * swap_bytes(block_size)) / 1024) * 2
}

/// `x` with its bytes in the other order.
pub open spec fn swap_bytes(x: u32) -> int {
    (x % 256) * 16777216 + ((x / 256) % 256) * 65536 + ((x / 65536) % 256) * 256 + x / 16777216
}

/// `x` with its bytes in the other order.
pub fn byte_swap(x: u32) -> (res: u32)
    ensures
        res == swap_bytes(x),
{
    let b0 = x % 256;
    let b1 = (x / 256) % 256;
    let b2 = (x / 65536) % 256;
    let b3 = x / 16777216;
    b0 * 16777216 + b1 * 65536 + b2 * 256 + b3
}

fn packet(code: u8, lba: u32, count: u8) -> (res: [u8; 12])
    ensures
        res == packet_with(code, lba, count),
{
    let res = [
        code,
        0,
        (lba / 16777216) as u8,
        ((lba / 65536) % 256) as u8,
        ((lba / 256) % 256) as u8,
        (lba % 256) as u8,
        0,
        0,
        0,
        count,
        0,
        0,
    ];
    assert(res =~= packet_with(code, lba, count));
    res
}

/// A drive driven by packet commands.
pub struct ATAPI {}

impl ATAPI {
    /// The packet that asks the capacity, from `lba`.
    pub fn capacity(lba: u32) -> (res: [u8; 12])
        ensures
            res == packet_with(ATAPI_CAPACITY, lba, 0),
    {
        packet(ATAPI_CAPACITY, lba, 0)
    }

    /// The capacity in units of 512 bytes, from the two words the drive
    /// answers to the capacity packet.
    pub fn capacity_size(last_lba: u32, block_size: u32) -> (res: u32)
        requires
            swap_bytes(last_lba) < u32::MAX,
            (swap_bytes(last_lba) + 1) * swap_bytes(block_size) <= u32::MAX,
        ensures
            res == capacity_of(last_lba, block_size),
    {
        let last = byte_swap(last_lba);
        let size = byte_swap(block_size);
        assert((last + 1) * size <= u32::MAX);
        let total: u32 = (last + 1) * size;
        (total / 1024) * 2
    }

    /// The packet that reads `numsects` sectors from `lba`.
    pub fn read(lba: u32, numsects: u8) -> (res: [u8; 12])
        ensures
            res == packet_with(ATAPI_READ, lba, numsects),
    {
        packet(ATAPI_READ, lba, numsects)
    }

    /// The packet that ejects the medium of `device`: `Err(1)` for a missing
    /// drive, `Err(20)` for an ATA drive.
    pub fn eject(device: &IDEDevice) -> (res: Result<[u8; 12], u8>)
        ensures
            device.reserved == 0 ==> res == Err::<[u8; 12], u8>(1),
            device.reserved != 0 && device.kind == 0 ==> res == Err::<[u8; 12], u8>(20),
            device.reserved != 0 && device.kind != 0 ==> res == Ok::<[u8; 12], u8>(
                [ATAPI_EJECT, 0, 0, 2, 0, 0, 0, 0, 0, 0, 0, 0],
            ),
    {
        if device.reserved == 0 {
            Err(1)
        } else if device.kind == 0 {
            Err(20)
        } else {
            Ok([ATAPI_EJECT, 0, 0, 2, 0, 0, 0, 0, 0, 0, 0, 0])
        }
    }

    /// The outcome of an eject from the last polling: no data to read (3)
    /// is no error.
    pub fn eject_result(polling: Result<(), u8>) -> (res: Result<(), u8>)
        ensures
            res == match polling {
                Err(e) => if e != 3 {
                    Err::<(), u8>(e)
                } else {
                    Ok(())
                },
                Ok(()) => Ok(()),
            },
    {
        match polling {
            Err(err) => {
                if err != 3 {
                    Err(err)
                } else {
                    Ok(())
                }
            },
            Ok(()) => Ok(()),
        }
    }
}

} // verus!
