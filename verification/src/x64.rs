//! The record layout with 64-bit time fields.

use vstd::prelude::*;

use crate::{le_order, le_order_bytes, ByteOrder, UT_HOSTSIZE, UT_LINESIZE, UT_NAMESIZE};
use vstd::bytes::{spec_u64_from_le_bytes, u64_from_le_bytes};

verus! {

/// Size in bytes of one record in this layout.
pub const UTMP_SIZE: usize = 312;

/// Byte offset of `ut_user` in a record.
pub const USER_OFFSET: usize = 8;
/// Byte offset of `ut_host` in a record.
pub const HOST_OFFSET: usize = 40;
/// Byte offset of `ut_tv` in a record.
pub const TV_OFFSET: usize = 296;

#[derive(Clone, Copy, Debug)]
pub struct timeval {
    /// Seconds
    pub tv_sec: i64,
    /// Microseconds
    pub tv_usec: i64,
}

#[derive(Clone, Copy)]
pub struct utmp {
    /// Device name of tty - `"/dev/"`
    pub ut_line: [u8; UT_LINESIZE],
    /// Username
    pub ut_user: [u8; UT_NAMESIZE],
    /// Hostname for remote login, or kernel version for run-level message
    pub ut_host: [u8; UT_HOSTSIZE],
    /// Time entry was made
    pub ut_tv: timeval,
}

/// The `i64` stored in eight bytes in `order`.
pub open spec fn read_i64(order: ByteOrder, bytes: Seq<u8>) -> i64 {
    spec_u64_from_le_bytes(le_order(order, bytes)) as i64
}

/// The time stamp held in bytes 296 to 312 of a record written in `order`.
pub open spec fn spec_record_tv(order: ByteOrder, b: Seq<u8>) -> timeval {
    timeval {
        tv_sec: read_i64(order, b.subrange(296, 304)),
        tv_usec: read_i64(order, b.subrange(304, 312)),
    }
}

/// `u` is the record that the `UTMP_SIZE` bytes `b`, written in `order`,
/// hold: the three text fields in order, then the seconds and the
/// microseconds of the time stamp, each an `i64` in `order`.
pub open spec fn decodes(order: ByteOrder, b: Seq<u8>, u: utmp) -> bool {
    &&& u.ut_line@ == b.subrange(0, 8)
    &&& u.ut_user@ == b.subrange(8, 40)
    &&& u.ut_host@ == b.subrange(40, 296)
    &&& u.ut_tv == spec_record_tv(order, b)
}

impl utmp {
    /// Reads a record from its `UTMP_SIZE` bytes, written in `order`.
    pub fn from_bytes(bytes: &[u8], order: ByteOrder) -> (r: utmp)
        requires
            bytes@.len() == UTMP_SIZE,
        ensures
            decodes(order, bytes@, r),
    {
        let ut_line: [u8; UT_LINESIZE] = crate::copy_array(bytes, 0);
        let ut_user: [u8; UT_NAMESIZE] = crate::copy_array(bytes, USER_OFFSET);
        let ut_host: [u8; UT_HOSTSIZE] = crate::copy_array(bytes, HOST_OFFSET);
        let sec = u64_from_le_bytes(le_order_bytes(order, bytes, 296, 304).as_slice());
        let usec = u64_from_le_bytes(le_order_bytes(order, bytes, 304, 312).as_slice());
        utmp {
            ut_line,
            ut_user,
            ut_host,
            ut_tv: timeval { tv_sec: sec as i64, tv_usec: usec as i64 },
        }
    }
}

} // verus!
