//! The record layout with 32-bit time fields.

use vstd::prelude::*;

use crate::x64;
use crate::{le_order, le_order_bytes, ByteOrder, UT_HOSTSIZE, UT_LINESIZE, UT_NAMESIZE};
use vstd::bytes::{spec_u32_from_le_bytes, u32_from_le_bytes};

verus! {

/// Size in bytes of one record in this layout.
pub const UTMP_SIZE: usize = 304;

#[derive(Clone, Copy, Debug)]
pub struct timeval {
    /// Seconds
    pub tv_sec: i32,
    /// Microseconds
    pub tv_usec: i32,
}

#[derive(Clone, Copy)]
pub struct utmp {
    /// Device name of tty - `"/dev/"`
    pub ut_line: [u8; UT_LINESIZE],
    /// Username
    pub ut_user: [u8; UT_NAMESIZE],
    /// Hostname for remote login, or kernel version for run-level message
    pub ut_host: [u8; UT_HOSTSIZE],
    /// Time entry was made
    pub ut_tv: timeval,
}

/// The `i32` stored in four bytes in `order`.
pub open spec fn read_i32(order: ByteOrder, bytes: Seq<u8>) -> i32 {
    spec_u32_from_le_bytes(le_order(order, bytes)) as i32
}

/// The time stamp held in bytes 296 to 304 of a record written in `order`,
/// widened to 64 bits.
pub open spec fn spec_record_tv(order: ByteOrder, b: Seq<u8>) -> x64::timeval {
    x64::timeval {
        tv_sec: read_i32(order, b.subrange(296, 300)) as i64,
        tv_usec: read_i32(order, b.subrange(300, 304)) as i64,
    }
}

/// `u` is the record that the `UTMP_SIZE` bytes `b`, written in `order`,
/// hold: the three text fields in order, then the seconds and the
/// microseconds of the time stamp, each an `i32` in `order`.
pub open spec fn decodes(order: ByteOrder, b: Seq<u8>, u: utmp) -> bool {
    &&& u.ut_line@ == b.subrange(0, 8)
    &&& u.ut_user@ == b.subrange(8, 40)
    &&& u.ut_host@ == b.subrange(40, 296)
    &&& u.ut_tv.tv_sec == read_i32(order, b.subrange(296, 300))
    &&& u.ut_tv.tv_usec == read_i32(order, b.subrange(300, 304))
    &&& spec_widen(u).ut_tv == spec_record_tv(order, b)
}

/// The 64-bit record with the same text fields and the same time values.
pub open spec fn spec_widen(u: utmp) -> x64::utmp {
    x64::utmp {
        ut_line: u.ut_line,
        ut_user: u.ut_user,
        ut_host: u.ut_host,
        ut_tv: x64::timeval { tv_sec: u.ut_tv.tv_sec as i64, tv_usec: u.ut_tv.tv_usec as i64 },
    }
}

impl utmp {
    /// Reads a record from its `UTMP_SIZE` bytes, written in `order`.
    pub fn from_bytes(bytes: &[u8], order: ByteOrder) -> (r: utmp)
        requires
            bytes@.len() == UTMP_SIZE,
        ensures
            decodes(order, bytes@, r),
    {
        let ut_line: [u8; UT_LINESIZE] = crate::copy_array(bytes, 0);
        let ut_user: [u8; UT_NAMESIZE] = crate::copy_array(bytes, x64::USER_OFFSET);
        let ut_host: [u8; UT_HOSTSIZE] = crate::copy_array(bytes, x64::HOST_OFFSET);
        let sec = u32_from_le_bytes(le_order_bytes(order, bytes, 296, 300).as_slice());
        let usec = u32_from_le_bytes(le_order_bytes(order, bytes, 300, 304).as_slice());
        utmp {
            ut_line,
            ut_user,
            ut_host,
            ut_tv: timeval { tv_sec: sec as i32, tv_usec: usec as i32 },
        }
    }

    /// The 64-bit record with the same text fields and the same time values.
    pub fn to_x64(&self) -> (r: x64::utmp)
        ensures
            r == spec_widen(*self),
    {
        x64::utmp {
            ut_line: self.ut_line,
            ut_user: self.ut_user,
            ut_host: self.ut_host,
            ut_tv: x64::timeval {
                tv_sec: self.ut_tv.tv_sec as i64,
                tv_usec: self.ut_tv.tv_usec as i64,
            },
        }
    }
}

} // verus!
