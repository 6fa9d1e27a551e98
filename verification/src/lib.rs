//! Reading of classic (AT&T Unix v1 style) `utmp` login records, the format
//! that OpenBSD still writes. Records come in two layouts that differ only in
//! the width of their time fields (`x32` and `x64`), and their integers are
//! stored in the byte order of the machine that wrote them; `entry` turns a raw
//! record into a checked [`UtmpEntry`], and `parse` drives a byte stream
//! through the records one read at a time.
#![allow(non_camel_case_types)]

use vstd::prelude::*;

pub mod entry;
pub mod laws;
pub mod parse;
pub mod x32;
pub mod x64;

pub use entry::{string_from_bytes, time_from_tv, UtmpEntry, UtmpError};
pub use parse::{ParseError, ReadEvent, RecordFormat, RecordLayout, RecordReader, Step};

verus! {

/// Record does not contain valid info (formerly known as `UT_UNKNOWN` on Linux)
pub const EMPTY: i16 = 0;
/// Change in system run-level (see `init(8)`)
pub const RUN_LVL: i16 = 1;
/// Time of system boot (in `ut_tv`)
pub const BOOT_TIME: i16 = 2;
/// Time after system clock change (in `ut_tv`)
pub const NEW_TIME: i16 = 3;
/// Time before system clock change (in `ut_tv`)
pub const OLD_TIME: i16 = 4;
/// Process spawned by `init(8)`
pub const INIT_PROCESS: i16 = 5;
/// Session leader process for user login
pub const LOGIN_PROCESS: i16 = 6;
/// Normal process
pub const USER_PROCESS: i16 = 7;
/// Terminated process
pub const DEAD_PROCESS: i16 = 8;
/// Not implemented
pub const ACCOUNTING: i16 = 9;
pub const UTMP: i16 = 10;

/// Size of the `ut_line` field.
pub const UT_LINESIZE: usize = 8;
/// Size of the `ut_user` field.
pub const UT_NAMESIZE: usize = 32;
/// Size of the `ut_host` field.
pub const UT_HOSTSIZE: usize = 256;

/// Type for `ut_exit`
#[derive(Clone, Copy, Debug)]
pub struct exit_status {
    /// Process termination status
    pub e_termination: i16,
    /// Process exit status
    pub e_exit: i16,
}

/// Position of the first zero byte of a fixed-size C string field, if any.
pub open spec fn first_nul(bytes: Seq<u8>) -> Option<int> {
    bytes.index_of_first(0u8)
}

/// The bytes `"???\0"`, shown for a field that holds no terminator.
pub open spec fn unterminated_marker() -> Seq<u8> {
    seq![63u8, 63u8, 63u8, 0u8]
}

/// The C string that a fixed-size field holds: its bytes up to and including
/// the first zero byte, or `"???\0"` when the field has no zero byte.
pub open spec fn spec_cstr_from_bytes(bytes: Seq<u8>) -> Seq<u8> {
    match first_nul(bytes) {
        Some(p) => bytes.take(p + 1),
        None => unterminated_marker(),
    }
}

/// Finds the first zero byte of `bytes`.
pub fn first_nul_index(bytes: &[u8]) -> (r: Option<usize>)
    ensures
        match r {
            Some(p) => first_nul(bytes@) == Some(p as int),
            None => first_nul(bytes@) is None,
        },
        r matches Some(p) ==> p < bytes@.len() && bytes@[p as int] == 0 && (forall|j: int|
            0 <= j < p ==> bytes@[j] != 0),
        r is None ==> forall|j: int| 0 <= j < bytes@.len() ==> bytes@[j] != 0,
{
    let mut i: usize = 0;
    while i < bytes.len()
        invariant
            i <= bytes@.len(),
            forall|j: int| 0 <= j < i ==> bytes@[j] != 0,
        decreases bytes@.len() - i,
    {
        if bytes[i] == 0 {
            proof {
                bytes@.index_of_first_ensures(0u8);
                assert(bytes@[i as int] == 0u8);
                assert(bytes@.contains(0u8));
                let q = first_nul(bytes@).unwrap();
                assert(q == i as int) by {
                    if q < i {
                        assert(bytes@[q] != 0);
                    }
                    if q > i {
                        assert(bytes@[i as int] != 0u8);
                    }
                }
            }
            return Some(i);
        }
        i = i + 1;
    }
    proof {
        bytes@.index_of_first_ensures(0u8);
        assert(!bytes@.contains(0u8));
    }
    None
}

/// The C string held by a fixed-size field: the bytes up to and including the
/// first zero byte, or `"???\0"` for a field without one.
pub fn cstr_from_bytes(bytes: &[u8]) -> (r: Vec<u8>)
    ensures
        r@ == spec_cstr_from_bytes(bytes@),
{
    match first_nul_index(bytes) {
        Some(pos) => {
            let mut out: Vec<u8> = Vec::new();
            let mut i: usize = 0;
            while i <= pos
                invariant
                    pos < bytes@.len(),
                    i <= pos + 1,
                    out@ == bytes@.take(i as int),
                decreases pos + 1 - i,
            {
                out.push(bytes[i]);
                proof {
                    assert(bytes@.take(i as int).push(bytes@[i as int]) =~= bytes@.take(i + 1));
                }
                i = i + 1;
            }
            out
        },
        None => {
            let out: Vec<u8> = vec![63u8, 63u8, 63u8, 0u8];
            proof {
                assert(out@ =~= unterminated_marker());
            }
            out
        },
    }
}

/// Copies `N` bytes of `bytes`, starting at `start`, into an array.
pub(crate) fn copy_array<const N: usize>(bytes: &[u8], start: usize) -> (r: [u8; N])
    requires
        start + N <= bytes@.len(),
    ensures
        r@ == bytes@.subrange(start as int, start + N),
{
    let mut a: [u8; N] = [0u8; N];
    let len = bytes.len();
    let mut i: usize = 0;
    while i < N
        invariant
            len == bytes@.len(),
            start + N <= bytes@.len(),
            i <= N,
            a@.len() == N,
            forall|j: int| 0 <= j < i ==> a@[j] == bytes@[start + j],
        decreases N - i,
    {
        a[i] = bytes[start + i];
        i = i + 1;
    }
    assert(a@ =~= bytes@.subrange(start as int, start + N));
    a
}

/// The order in which the bytes of a record's integers are stored: that of
/// the machine that wrote the record.
#[derive(Clone, Copy, Debug, PartialEq, Eq)]
pub enum ByteOrder {
    /// Least significant byte first.
    Little,
    /// Most significant byte first.
    Big,
}

/// The bytes of an integer stored in `order`, rearranged least significant
/// first. Rearranging twice gives the bytes back, so this also turns bytes
/// that are least significant first into their order in storage.
pub open spec fn le_order(order: ByteOrder, bytes: Seq<u8>) -> Seq<u8> {
    match order {
        ByteOrder::Little => bytes,
        ByteOrder::Big => bytes.reverse(),
    }
}

/// Rearranging the bytes of an integer twice gives them back.
pub proof fn lemma_le_order_twice(order: ByteOrder, bytes: Seq<u8>)
    ensures
        le_order(order, le_order(order, bytes)) == bytes,
{
    assert(le_order(order, le_order(order, bytes)) =~= bytes);
}

/// The bytes `bytes[start..end]`, of an integer stored in `order`,
/// rearranged least significant first.
pub(crate) fn le_order_bytes(order: ByteOrder, bytes: &[u8], start: usize, end: usize) -> (r: Vec<
    u8,
>)
    requires
        start <= end <= bytes@.len(),
    ensures
        r@ == le_order(order, bytes@.subrange(start as int, end as int)),
{
    let ghost field = bytes@.subrange(start as int, end as int);
    let mut out: Vec<u8> = Vec::new();
    let mut i: usize = start;
    while i < end
        invariant
            start <= i <= end <= bytes@.len(),
            field == bytes@.subrange(start as int, end as int),
            out@.len() == i - start,
            forall|j: int|
                0 <= j < i - start ==> out@[j] == match order {
                    ByteOrder::Little => field[j],
                    ByteOrder::Big => field[field.len() - 1 - j],
                },
        decreases end - i,
    {
        match order {
            ByteOrder::Little => out.push(bytes[i]),
            ByteOrder::Big => out.push(bytes[end - 1 - (i - start)]),
        }
        i = i + 1;
    }
    assert(out@ =~= le_order(order, field));
    out
}

} // verus!
