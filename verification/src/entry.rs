//! Turning a raw record into a checked [`UtmpEntry`].

use vstd::prelude::*;

use crate::{first_nul, first_nul_index, spec_cstr_from_bytes, x32, x64};
use vstd::slice::{slice_subrange, slice_to_vec};
use vstd::utf8::{
    char_is_scalar, decode_utf8, decode_utf8_encode_utf8, encode_scalar, encode_utf8,
    encode_utf8_decode_utf8, encode_utf8_valid_utf8, has_width_1_encoding, has_width_2_encoding,
    has_width_3_encoding, is_scalar, last_continuation_byte, leading_byte_width_1,
    leading_byte_width_2, leading_byte_width_3, leading_byte_width_4,
    second_last_continuation_byte, third_last_continuation_byte, valid_utf8,
};

verus! {

/// Earliest second since the Unix epoch that a date-time can hold:
/// -9999-01-01 00:00:00 UTC.
pub const MIN_UNIX_SECONDS: i64 = -377_705_116_800;

/// Latest second since the Unix epoch that a date-time can hold:
/// 9999-12-31 23:59:59 UTC.
pub const MAX_UNIX_SECONDS: i64 = 253_402_300_799;

/// Nanoseconds in one second.
pub const NANOS_PER_SECOND: i128 = 1_000_000_000;

/// Parsed utmp entry.
#[derive(Clone, Debug, Eq, PartialEq)]
#[non_exhaustive]
pub enum UtmpEntry {
    UTMP {
        /// Device name of tty
        line: String,
        /// Username
        user: String,
        /// Hostname for remote login
        host: String,
        /// Time the entry was made, in nanoseconds since the Unix epoch (UTC)
        time: i128,
    },
}

/// What an entry holds, as mathematical values.
pub struct EntryModel {
    pub line: Seq<char>,
    pub user: Seq<char>,
    pub host: Seq<char>,
    pub time: int,
}

impl View for UtmpEntry {
    type V = EntryModel;

    open spec fn view(&self) -> EntryModel {
        match self {
            UtmpEntry::UTMP { line, user, host, time } => EntryModel {
                line: line@,
                user: user@,
                host: host@,
                time: *time as int,
            },
        }
    }
}

/// Why a record could not be turned into an entry.
#[derive(Debug)]
#[non_exhaustive]
pub enum UtmpError {
    /// Unknown record type.
    UnknownType(i16),
    /// The time stamp has negative microseconds, or lies outside the range
    /// that a date-time can hold.
    InvalidTime(x64::timeval),
    /// The line field has no terminator or is not UTF-8; holds the whole field.
    InvalidLine(Vec<u8>),
    /// The user field has no terminator or is not UTF-8; holds the whole field.
    InvalidUser(Vec<u8>),
    /// The host field has no terminator or is not UTF-8; holds the whole field.
    InvalidHost(Vec<u8>),
}

/// What an error holds, as mathematical values.
pub enum UtmpErrorModel {
    UnknownType(i16),
    InvalidTime(x64::timeval),
    InvalidLine(Seq<u8>),
    InvalidUser(Seq<u8>),
    InvalidHost(Seq<u8>),
}

impl View for UtmpError {
    type V = UtmpErrorModel;

    open spec fn view(&self) -> UtmpErrorModel {
        match self {
            UtmpError::UnknownType(t) => UtmpErrorModel::UnknownType(*t),
            UtmpError::InvalidTime(tv) => UtmpErrorModel::InvalidTime(*tv),
            UtmpError::InvalidLine(b) => UtmpErrorModel::InvalidLine(b@),
            UtmpError::InvalidUser(b) => UtmpErrorModel::InvalidUser(b@),
            UtmpError::InvalidHost(b) => UtmpErrorModel::InvalidHost(b@),
        }
    }
}

/// The value of a conversion result.
pub open spec fn entry_result_view(r: Result<UtmpEntry, UtmpError>) -> Result<
    EntryModel,
    UtmpErrorModel,
> {
    match r {
        Ok(e) => Ok(e@),
        Err(e) => Err(e@),
    }
}

/// The value of a field conversion result.
pub open spec fn string_result_view(r: Result<String, Vec<u8>>) -> Result<Seq<char>, Seq<u8>> {
    match r {
        Ok(s) => Ok(s@),
        Err(b) => Err(b@),
    }
}

/// The text that a fixed-size field holds: the UTF-8 text before its first
/// zero byte. A field with no zero byte, or whose bytes before it are not
/// UTF-8, is refused with the whole field.
pub open spec fn spec_string_from_bytes(bytes: Seq<u8>) -> Result<Seq<char>, Seq<u8>> {
    match first_nul(bytes) {
        Some(p) => if valid_utf8(bytes.take(p)) {
            Ok(decode_utf8(bytes.take(p)))
        } else {
            Err(bytes)
        },
        None => Err(bytes),
    }
}

/// The instant of a time stamp in nanoseconds since the epoch: the seconds
/// and the microseconds added up, whatever their size.
pub open spec fn unix_nanos(tv: x64::timeval) -> int {
    (tv.tv_sec * 1_000_000 + tv.tv_usec) * 1000
}

/// `nanos` lies within the years -9999 to 9999 that a date-time can hold.
pub open spec fn representable_nanos(nanos: int) -> bool {
    MIN_UNIX_SECONDS * NANOS_PER_SECOND <= nanos < (MAX_UNIX_SECONDS + 1) * NANOS_PER_SECOND
}

/// The instant of a time stamp, or `None` when its microseconds are negative
/// or the instant cannot be held.
pub open spec fn spec_time_from_tv(tv: x64::timeval) -> Option<int> {
    if tv.tv_usec < 0 || !representable_nanos(unix_nanos(tv)) {
        None
    } else {
        Some(unix_nanos(tv))
    }
}

/// The entry that fields with these bytes and this time stamp make. The
/// fields are checked in order line, user, host, time; the first that fails
/// names the error.
pub open spec fn spec_entry(
    line: Seq<u8>,
    user: Seq<u8>,
    host: Seq<u8>,
    tv: x64::timeval,
) -> Result<EntryModel, UtmpErrorModel> {
    match spec_string_from_bytes(line) {
        Err(b) => Err(UtmpErrorModel::InvalidLine(b)),
        Ok(l) => match spec_string_from_bytes(user) {
            Err(b) => Err(UtmpErrorModel::InvalidUser(b)),
            Ok(u) => match spec_string_from_bytes(host) {
                Err(b) => Err(UtmpErrorModel::InvalidHost(b)),
                Ok(h) => match spec_time_from_tv(tv) {
                    None => Err(UtmpErrorModel::InvalidTime(tv)),
                    Some(t) => Ok(EntryModel { line: l, user: u, host: h, time: t }),
                },
            },
        },
    }
}

/// The entry that a 64-bit record makes.
pub open spec fn spec_entry_from_x64(u: x64::utmp) -> Result<EntryModel, UtmpErrorModel> {
    spec_entry(u.ut_line@, u.ut_user@, u.ut_host@, u.ut_tv)
}

/// Whether `time::OffsetDateTime` can hold the instant `nanos`.
///
/// Calls `time::OffsetDateTime::from_unix_timestamp_nanos`, which succeeds
/// exactly when the whole seconds of `nanos` (rounded down) lie between
/// `MIN_UNIX_SECONDS` and `MAX_UNIX_SECONDS`, as the crate's source shows; the
/// date-time itself is not kept. That range is the one the crate has with its
/// `large-dates` feature off, as this crate builds it; a build that switches
/// that feature on widens the range to the years -999999 to 999999, and there
/// this contract is not the crate's behaviour.
#[verifier::external_body]
fn datetime_in_range(nanos: i128) -> (ok: bool)
    ensures
        ok == representable_nanos(nanos as int),
{
    time::OffsetDateTime::from_unix_timestamp_nanos(nanos).is_ok()
}

/// Text from UTF-8 bytes.
///
/// Calls `String::from_utf8`, which accepts exactly the well-formed UTF-8
/// byte strings (as `vstd::utf8::valid_utf8` defines them) and then holds the
/// characters they encode.
#[verifier::external_body]
fn string_from_utf8(bytes: Vec<u8>) -> (r: Option<String>)
    ensures
        r is Some <==> valid_utf8(bytes@),
        r matches Some(s) ==> s@ == decode_utf8(bytes@),
{
    String::from_utf8(bytes).ok()
}

/// The text held by a fixed-size field: the UTF-8 text before its first zero
/// byte. Fails with the whole field when it has no zero byte or when the
/// bytes before it are not UTF-8.
pub fn string_from_bytes(bytes: &[u8]) -> (r: Result<String, Vec<u8>>)
    ensures
        string_result_view(r) == spec_string_from_bytes(bytes@),
{
    match first_nul_index(bytes) {
        Some(pos) => {
            let prefix = slice_to_vec(slice_subrange(bytes, 0, pos));
            assert(prefix@ == bytes@.take(pos as int));
            match string_from_utf8(prefix) {
                Some(s) => Ok(s),
                None => Err(slice_to_vec(bytes)),
            }
        },
        None => Err(slice_to_vec(bytes)),
    }
}

/// The instant of a time stamp, in nanoseconds since the epoch. Fails when
/// the microseconds are negative or the instant lies outside the years -9999
/// to 9999.
pub fn time_from_tv(tv: x64::timeval) -> (r: Result<i128, UtmpError>)
    ensures
        match r {
            Ok(n) => spec_time_from_tv(tv) == Some(n as int),
            Err(e) => spec_time_from_tv(tv) is None && e@ == UtmpErrorModel::InvalidTime(tv),
        },
{
    if tv.tv_usec < 0 {
        return Err(UtmpError::InvalidTime(tv));
    }
    let usec: i128 = (tv.tv_sec as i128) * 1_000_000 + (tv.tv_usec as i128);
    let nanos: i128 = usec * 1000;
    if datetime_in_range(nanos) {
        Ok(nanos)
    } else {
        Err(UtmpError::InvalidTime(tv))
    }
}

impl UtmpEntry {
    /// The entry that a 64-bit record makes.
    pub fn try_from_x64(from: &x64::utmp) -> (r: Result<UtmpEntry, UtmpError>)
        ensures
            entry_result_view(r) == spec_entry_from_x64(*from),
    {
        let line = match string_from_bytes(from.ut_line.as_slice()) {
            Ok(s) => s,
            Err(b) => return Err(UtmpError::InvalidLine(b)),
        };
        let user = match string_from_bytes(from.ut_user.as_slice()) {
            Ok(s) => s,
            Err(b) => return Err(UtmpError::InvalidUser(b)),
        };
        let host = match string_from_bytes(from.ut_host.as_slice()) {
            Ok(s) => s,
            Err(b) => return Err(UtmpError::InvalidHost(b)),
        };
        let time = time_from_tv(from.ut_tv)?;
        Ok(UtmpEntry::UTMP { line, user, host, time })
    }

    /// The entry that a 32-bit record makes: that of the 64-bit record with
    /// the same fields.
    pub fn try_from_x32(from: &x32::utmp) -> (r: Result<UtmpEntry, UtmpError>)
        ensures
            entry_result_view(r) == spec_entry_from_x64(x32::spec_widen(*from)),
    {
        UtmpEntry::try_from_x64(&from.to_x64())
    }
}

/// `text` holds no zero character.
pub open spec fn no_nul_chars(text: Seq<char>) -> bool {
    forall|i: int| 0 <= i < text.len() ==> text[i] as u32 != 0
}

/// No byte of the UTF-8 encoding of a nonzero scalar is zero.
proof fn lemma_scalar_bytes_nonzero(v: u32)
    requires
        is_scalar(v),
        v != 0,
    ensures
        forall|j: int| 0 <= j < encode_scalar(v).len() ==> encode_scalar(v)[j] != 0,
{
    assert(has_width_1_encoding(v) && v != 0 ==> leading_byte_width_1(v) != 0) by (bit_vector);
    assert(leading_byte_width_2(v) != 0) by (bit_vector);
    assert(leading_byte_width_3(v) != 0) by (bit_vector);
    assert(leading_byte_width_4(v) != 0) by (bit_vector);
    assert(last_continuation_byte(v) != 0) by (bit_vector);
    assert(second_last_continuation_byte(v) != 0) by (bit_vector);
    assert(third_last_continuation_byte(v) != 0) by (bit_vector);
}

/// No byte of the UTF-8 encoding of a text without zero characters is zero.
proof fn lemma_encoding_has_no_nul(text: Seq<char>)
    requires
        no_nul_chars(text),
    ensures
        forall|j: int| 0 <= j < encode_utf8(text).len() ==> encode_utf8(text)[j] != 0,
    decreases text.len(),
{
    if text.len() > 0 {
        let rest = text.drop_first();
        assert(no_nul_chars(rest)) by {
            assert forall|i: int| 0 <= i < rest.len() implies rest[i] as u32 != 0 by {
                assert(rest[i] == text[i + 1]);
            }
        }
        lemma_encoding_has_no_nul(rest);
        char_is_scalar(text[0]);
        lemma_scalar_bytes_nonzero(text[0] as u32);
        let head = encode_scalar(text[0] as u32);
        let tail = encode_utf8(rest);
        assert(encode_utf8(text) == head + tail);
        assert forall|j: int| 0 <= j < encode_utf8(text).len() implies encode_utf8(text)[j] != 0 by {
            if j < head.len() {
                assert(encode_utf8(text)[j] == head[j]);
            } else {
                assert(encode_utf8(text)[j] == tail[j - head.len()]);
            }
        }
    }
}

/// A field that holds the UTF-8 encoding of a text without zero characters,
/// then a zero byte, then any bytes, reads as that text.
pub proof fn lemma_field_round_trip(text: Seq<char>, rest: Seq<u8>)
    requires
        no_nul_chars(text),
    ensures
        spec_string_from_bytes(encode_utf8(text) + seq![0u8] + rest) == Ok::<Seq<char>, Seq<u8>>(
            text,
        ),
{
    let enc = encode_utf8(text);
    let b = enc + seq![0u8] + rest;
    let n = enc.len() as int;
    lemma_encoding_has_no_nul(text);
    b.index_of_first_ensures(0u8);
    assert(b[n] == 0u8);
    assert(b.contains(0u8));
    let p = first_nul(b).unwrap();
    assert(p == n) by {
        if p < n {
            assert(b[p] == enc[p]);
        }
    }
    assert(b.take(n) =~= enc);
    encode_utf8_valid_utf8(text);
    encode_utf8_decode_utf8(text);
}

/// The text that a field reads as is, encoded in UTF-8 and terminated, the C
/// string that the field holds.
pub proof fn lemma_text_is_c_string(bytes: Seq<u8>)
    requires
        spec_string_from_bytes(bytes) is Ok,
    ensures
        spec_cstr_from_bytes(bytes) == encode_utf8(spec_string_from_bytes(bytes)->Ok_0).push(0u8),
{
    bytes.index_of_first_ensures(0u8);
    let p = first_nul(bytes).unwrap();
    decode_utf8_encode_utf8(bytes.take(p));
    assert(bytes.take(p + 1) =~= bytes.take(p).push(0u8));
}

/// Only the bytes up to the first zero byte of a field decide whether it
/// reads as a text and which: two fields that agree up to and including the
/// first zero byte of one both read as the same text, or both fail.
pub proof fn lemma_text_ends_at_terminator(a: Seq<u8>, b: Seq<u8>)
    requires
        first_nul(a) is Some,
        first_nul(a)->0 < b.len(),
        a.take(first_nul(a)->0 + 1) == b.take(first_nul(a)->0 + 1),
    ensures
        first_nul(b) == first_nul(a),
        spec_string_from_bytes(a) is Ok <==> spec_string_from_bytes(b) is Ok,
        spec_string_from_bytes(a) is Ok ==> spec_string_from_bytes(a) == spec_string_from_bytes(b),
{
    let p = first_nul(a)->0;
    a.index_of_first_ensures(0u8);
    b.index_of_first_ensures(0u8);
    assert forall|j: int| 0 <= j <= p implies a[j] == b[j] by {
        assert(a[j] == a.take(p + 1)[j]);
        assert(b[j] == b.take(p + 1)[j]);
    }
    assert(b.contains(0u8)) by {
        assert(b[p] == 0u8);
    }
    let q = first_nul(b)->0;
    assert(q == p) by {
        if q < p {
            assert(a[q] == b[q]);
        }
        if p < q {
            assert(b[p] == a[p]);
        }
    }
    assert(a.take(p) =~= b.take(p));
}

} // verus!
