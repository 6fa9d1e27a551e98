//! What the library's operations are for, stated over all inputs: how a
//! stream's reads end, what a field shows, and that a record written with
//! given fields and a given time, in either layout and byte order, decodes
//! and converts back to exactly those.

use vstd::prelude::*;

use crate::entry::{spec_entry, spec_entry_from_x64, spec_string_from_bytes, spec_time_from_tv, EntryModel, UtmpErrorModel};
use crate::parse::{
    spec_record_item, spec_records, spec_step, ParseErrorModel, ReadEventModel, RecordFormat,
    RecordLayout, StepModel,
};
use crate::{first_nul, spec_cstr_from_bytes, x32, x64, ByteOrder};
use vstd::bytes::{
    lemma_auto_spec_u32_to_from_le_bytes, lemma_auto_spec_u64_to_from_le_bytes,
    spec_u32_to_le_bytes, spec_u64_to_le_bytes,
};
use vstd::utf8::{decode_utf8, encode_utf8, valid_utf8};

verus! {

// ---------------------------------------------------------------------------
// Reading a stream

/// A failed read is reported, whatever bytes of a record were read before it,
/// and those bytes are dropped.
pub proof fn lemma_failed_read_is_reported(format: RecordFormat, pending: Seq<u8>)
    ensures
        spec_step(format, pending, ReadEventModel::Failed) == (
            Seq::<u8>::empty(),
            StepModel::ReadFailed,
        ),
{
}

/// An interrupted read changes nothing and is retried.
pub proof fn lemma_interrupted_read_is_retried(format: RecordFormat, pending: Seq<u8>)
    ensures
        spec_step(format, pending, ReadEventModel::Interrupted) == (pending, StepModel::ReadMore),
{
}

/// The stream ends cleanly exactly when a read returns no bytes and no
/// record is in progress; no other event ends it.
pub proof fn lemma_end_only_between_records(
    format: RecordFormat,
    pending: Seq<u8>,
    event: ReadEventModel,
)
    ensures
        spec_step(format, pending, event).1 is End <==> (event matches ReadEventModel::Data(c)
            && c.len() == 0 && pending.len() == 0),
{
}

/// A stream that ends inside a record gives `UnexpectedEof`, and drops the
/// bytes of that record.
pub proof fn lemma_end_inside_record(format: RecordFormat, pending: Seq<u8>)
    requires
        pending.len() > 0,
    ensures
        spec_step(format, pending, ReadEventModel::Data(Seq::empty())) == (
            Seq::<u8>::empty(),
            StepModel::Item(Err(ParseErrorModel::UnexpectedEof)),
        ),
{
}

/// A read that does not complete the record in progress keeps its bytes,
/// after those read before, and asks for more.
pub proof fn lemma_partial_read_is_kept(format: RecordFormat, pending: Seq<u8>, c: Seq<u8>)
    requires
        c.len() > 0,
        pending.len() + c.len() < format.spec_record_size(),
    ensures
        spec_step(format, pending, ReadEventModel::Data(c)) == (pending + c, StepModel::ReadMore),
{
}

/// The items of a stream's complete records: one per record, the `i`-th
/// made from bytes `i * size` to `(i + 1) * size`, whatever the other
/// records hold.
pub proof fn lemma_records_one_per_record(format: RecordFormat, bytes: Seq<u8>, i: int)
    requires
        0 <= i < (bytes.len() as int) / (format.spec_record_size() as int),
    ensures
        spec_records(format, bytes).len() == (bytes.len() as int) / (format.spec_record_size() as int),
        spec_records(format, bytes)[i] == spec_record_item(
            format,
            bytes.subrange(
                i * (format.spec_record_size() as int),
                (i + 1) * (format.spec_record_size() as int),
            ),
        ),
    decreases bytes.len(),
{
    let size = format.spec_record_size() as int;
    lemma_records_len(format, bytes);
    let rest = bytes.skip(size);
    if i > 0 {
        assert((rest.len() as int) / size == (bytes.len() as int) / size - 1) by {
            assert(rest.len() == bytes.len() - size);
            vstd::arithmetic::div_mod::lemma_div_minus_one(bytes.len() as int, size);
        }
        lemma_records_one_per_record(format, rest, i - 1);
        assert(rest.subrange((i - 1) * size, i * size) =~= bytes.subrange(
            i * size,
            (i + 1) * size,
        ));
    } else {
        assert(bytes.take(size) =~= bytes.subrange(0, size));
    }
}

/// There are as many record items as complete records.
proof fn lemma_records_len(format: RecordFormat, bytes: Seq<u8>)
    ensures
        spec_records(format, bytes).len() == (bytes.len() as int) / (format.spec_record_size() as int),
    decreases bytes.len(),
{
    let size = format.spec_record_size() as int;
    if bytes.len() >= size {
        let rest = bytes.skip(size);
        lemma_records_len(format, rest);
        assert(rest.len() == bytes.len() - size);
        vstd::arithmetic::div_mod::lemma_div_minus_one(bytes.len() as int, size);
    } else {
        vstd::arithmetic::div_mod::lemma_basic_div(bytes.len() as int, size);
    }
}

// ---------------------------------------------------------------------------
// Text fields

/// A field shows as a C string exactly its bytes through its first zero byte,
/// whatever those bytes are.
pub proof fn lemma_c_string_through_first_zero(bytes: Seq<u8>, p: int)
    requires
        0 <= p < bytes.len(),
        bytes[p] == 0,
        forall|j: int| 0 <= j < p ==> bytes[j] != 0,
    ensures
        spec_cstr_from_bytes(bytes) == bytes.take(p + 1),
{
    lemma_first_nul_is(bytes, p);
}

/// A field without a zero byte shows as `"???\0"`.
pub proof fn lemma_c_string_without_zero(bytes: Seq<u8>)
    requires
        forall|j: int| 0 <= j < bytes.len() ==> bytes[j] != 0,
    ensures
        spec_cstr_from_bytes(bytes) == seq![63u8, 63u8, 63u8, 0u8],
{
    bytes.index_of_first_ensures(0u8);
    if bytes.contains(0u8) {
        let k = choose|k: int| 0 <= k < bytes.len() && bytes[k] == 0u8;
        assert(bytes[k] != 0);
    }
}

/// The first zero byte of a field is the one before which there is none.
proof fn lemma_first_nul_is(bytes: Seq<u8>, p: int)
    requires
        0 <= p < bytes.len(),
        bytes[p] == 0,
        forall|j: int| 0 <= j < p ==> bytes[j] != 0,
    ensures
        first_nul(bytes) == Some(p),
{
    bytes.index_of_first_ensures(0u8);
    assert(bytes.contains(0u8));
    let q = first_nul(bytes)->0;
    if q < p {
        assert(bytes[q] != 0);
    }
    if p < q {
        assert(bytes[p] != 0u8);
    }
}

/// A field reads as the UTF-8 text before its first zero byte when those
/// bytes are UTF-8, and fails with the whole field otherwise.
pub proof fn lemma_text_before_first_zero(bytes: Seq<u8>, p: int)
    requires
        0 <= p < bytes.len(),
        bytes[p] == 0,
        forall|j: int| 0 <= j < p ==> bytes[j] != 0,
    ensures
        valid_utf8(bytes.take(p)) ==> spec_string_from_bytes(bytes) == Ok::<Seq<char>, Seq<u8>>(
            decode_utf8(bytes.take(p)),
        ),
        !valid_utf8(bytes.take(p)) ==> spec_string_from_bytes(bytes) == Err::<Seq<char>, Seq<u8>>(
            bytes,
        ),
{
    lemma_first_nul_is(bytes, p);
}

/// A field without a zero byte fails with the whole field.
pub proof fn lemma_text_without_zero(bytes: Seq<u8>)
    requires
        forall|j: int| 0 <= j < bytes.len() ==> bytes[j] != 0,
    ensures
        spec_string_from_bytes(bytes) == Err::<Seq<char>, Seq<u8>>(bytes),
{
    bytes.index_of_first_ensures(0u8);
    if bytes.contains(0u8) {
        let k = choose|k: int| 0 <= k < bytes.len() && bytes[k] == 0u8;
        assert(bytes[k] != 0);
    }
}

// ---------------------------------------------------------------------------
// Time stamps

/// A time stamp is valid exactly when its microseconds are not negative and
/// its instant, `(seconds * 1_000_000 + microseconds) * 1000` nanoseconds,
/// lies from -9999-01-01 00:00:00 UTC up to the end of 9999-12-31; the
/// instant is then its value.
pub proof fn lemma_time_stamp_value(tv: x64::timeval)
    ensures
        ({
            let n = (tv.tv_sec * 1_000_000 + tv.tv_usec) * 1000;
            &&& spec_time_from_tv(tv) is Some <==> (tv.tv_usec >= 0
                && -377_705_116_800_000_000_000 <= n < 253_402_300_800_000_000_000)
            &&& spec_time_from_tv(tv) is Some ==> spec_time_from_tv(tv) == Some(n)
        }),
{
}

// ---------------------------------------------------------------------------
// Records

/// `text` holds no zero character.
pub open spec fn without_zero_chars(text: Seq<char>) -> bool {
    forall|i: int| 0 <= i < text.len() ==> text[i] as u32 != 0
}

/// A 64-bit record whose three fields hold texts without zero characters,
/// each UTF-8 encoded, terminated and padded with any bytes, and whose time
/// stamp is valid, converts to the entry of exactly those texts at the
/// time stamp's instant; no field's length cuts its text.
pub proof fn lemma_x64_record_converts_to_its_fields(
    u: x64::utmp,
    line: Seq<char>,
    user: Seq<char>,
    host: Seq<char>,
    line_pad: Seq<u8>,
    user_pad: Seq<u8>,
    host_pad: Seq<u8>,
)
    requires
        without_zero_chars(line),
        without_zero_chars(user),
        without_zero_chars(host),
        u.ut_line@ == encode_utf8(line) + seq![0u8] + line_pad,
        u.ut_user@ == encode_utf8(user) + seq![0u8] + user_pad,
        u.ut_host@ == encode_utf8(host) + seq![0u8] + host_pad,
        u.ut_tv.tv_usec >= 0,
        -377_705_116_800_000_000_000 <= (u.ut_tv.tv_sec * 1_000_000 + u.ut_tv.tv_usec) * 1000
            < 253_402_300_800_000_000_000,
    ensures
        spec_entry_from_x64(u) == Ok::<EntryModel, UtmpErrorModel>(
            EntryModel {
                line,
                user,
                host,
                time: (u.ut_tv.tv_sec * 1_000_000 + u.ut_tv.tv_usec) * 1000,
            },
        ),
{
    crate::entry::lemma_field_round_trip(line, line_pad);
    crate::entry::lemma_field_round_trip(user, user_pad);
    crate::entry::lemma_field_round_trip(host, host_pad);
    lemma_time_stamp_value(u.ut_tv);
}

/// Widening a 32-bit record to 64 bits keeps every text field byte for byte
/// and the time values as numbers.
pub proof fn lemma_widening_keeps_fields(u: x32::utmp)
    ensures
        x32::spec_widen(u).ut_line@ == u.ut_line@,
        x32::spec_widen(u).ut_user@ == u.ut_user@,
        x32::spec_widen(u).ut_host@ == u.ut_host@,
        x32::spec_widen(u).ut_tv.tv_sec == u.ut_tv.tv_sec,
        x32::spec_widen(u).ut_tv.tv_usec == u.ut_tv.tv_usec,
{
}

/// A 32-bit record whose three fields hold texts without zero characters,
/// each UTF-8 encoded, terminated and padded with any bytes, and whose time
/// stamp is valid, converts (through its widening) to the entry of exactly
/// those texts at the time stamp's instant.
pub proof fn lemma_x32_record_converts_to_its_fields(
    u: x32::utmp,
    line: Seq<char>,
    user: Seq<char>,
    host: Seq<char>,
    line_pad: Seq<u8>,
    user_pad: Seq<u8>,
    host_pad: Seq<u8>,
)
    requires
        without_zero_chars(line),
        without_zero_chars(user),
        without_zero_chars(host),
        u.ut_line@ == encode_utf8(line) + seq![0u8] + line_pad,
        u.ut_user@ == encode_utf8(user) + seq![0u8] + user_pad,
        u.ut_host@ == encode_utf8(host) + seq![0u8] + host_pad,
        u.ut_tv.tv_usec >= 0,
        -377_705_116_800_000_000_000 <= (u.ut_tv.tv_sec * 1_000_000 + u.ut_tv.tv_usec) * 1000
            < 253_402_300_800_000_000_000,
    ensures
        spec_entry_from_x64(x32::spec_widen(u)) == Ok::<EntryModel, UtmpErrorModel>(
            EntryModel {
                line,
                user,
                host,
                time: (u.ut_tv.tv_sec * 1_000_000 + u.ut_tv.tv_usec) * 1000,
            },
        ),
{
    lemma_widening_keeps_fields(u);
    lemma_x64_record_converts_to_its_fields(
        x32::spec_widen(u),
        line,
        user,
        host,
        line_pad,
        user_pad,
        host_pad,
    );
}

/// The fields are checked in the order line, user, host, time: the first
/// that fails names the error, with the whole field or the time stamp.
pub proof fn lemma_first_bad_field_names_the_error(
    line: Seq<u8>,
    user: Seq<u8>,
    host: Seq<u8>,
    tv: x64::timeval,
)
    ensures
        spec_string_from_bytes(line) is Err ==> spec_entry(line, user, host, tv) == Err::<
            EntryModel,
            UtmpErrorModel,
        >(UtmpErrorModel::InvalidLine(line)),
        spec_string_from_bytes(line) is Ok && spec_string_from_bytes(user) is Err ==> spec_entry(
            line,
            user,
            host,
            tv,
        ) == Err::<EntryModel, UtmpErrorModel>(UtmpErrorModel::InvalidUser(user)),
        spec_string_from_bytes(line) is Ok && spec_string_from_bytes(user) is Ok
            && spec_string_from_bytes(host) is Err ==> spec_entry(line, user, host, tv) == Err::<
            EntryModel,
            UtmpErrorModel,
        >(UtmpErrorModel::InvalidHost(host)),
        spec_string_from_bytes(line) is Ok && spec_string_from_bytes(user) is Ok
            && spec_string_from_bytes(host) is Ok && spec_time_from_tv(tv) is None ==> spec_entry(
            line,
            user,
            host,
            tv,
        ) == Err::<EntryModel, UtmpErrorModel>(UtmpErrorModel::InvalidTime(tv)),
{
}

// ---------------------------------------------------------------------------
// Decoding bytes

/// The eight bytes in which a machine with byte order `order` stores `x`.
pub open spec fn stored_i64(order: ByteOrder, x: i64) -> Seq<u8> {
    match order {
        ByteOrder::Little => spec_u64_to_le_bytes(x as u64),
        ByteOrder::Big => spec_u64_to_le_bytes(x as u64).reverse(),
    }
}

/// The four bytes in which a machine with byte order `order` stores `x`.
pub open spec fn stored_i32(order: ByteOrder, x: i32) -> Seq<u8> {
    match order {
        ByteOrder::Little => spec_u32_to_le_bytes(x as u32),
        ByteOrder::Big => spec_u32_to_le_bytes(x as u32).reverse(),
    }
}

/// Decoding the bytes of a 64-bit record, written in byte order `order` with
/// these fields and these time values, gives back exactly those fields and
/// values.
pub proof fn lemma_x64_decoding_gives_written_fields(
    order: ByteOrder,
    line: Seq<u8>,
    user: Seq<u8>,
    host: Seq<u8>,
    sec: i64,
    usec: i64,
    u: x64::utmp,
)
    requires
        line.len() == 8,
        user.len() == 32,
        host.len() == 256,
        x64::decodes(order, line + user + host + stored_i64(order, sec) + stored_i64(order, usec), u),
    ensures
        u.ut_line@ == line,
        u.ut_user@ == user,
        u.ut_host@ == host,
        u.ut_tv.tv_sec == sec,
        u.ut_tv.tv_usec == usec,
{
    let s = stored_i64(order, sec);
    let us = stored_i64(order, usec);
    let b = line + user + host + s + us;
    lemma_auto_spec_u64_to_from_le_bytes();
    assert(b.subrange(0, 8) =~= line);
    assert(b.subrange(8, 40) =~= user);
    assert(b.subrange(40, 296) =~= host);
    assert(b.subrange(296, 304) =~= s);
    assert(b.subrange(304, 312) =~= us);
    assert(crate::le_order(order, s) =~= spec_u64_to_le_bytes(sec as u64));
    assert(crate::le_order(order, us) =~= spec_u64_to_le_bytes(usec as u64));
    assert((sec as u64) as i64 == sec) by (bit_vector);
    assert((usec as u64) as i64 == usec) by (bit_vector);
}

/// Decoding the bytes of a 32-bit record, written in byte order `order` with
/// these fields and these time values, gives back exactly those fields and
/// values.
pub proof fn lemma_x32_decoding_gives_written_fields(
    order: ByteOrder,
    line: Seq<u8>,
    user: Seq<u8>,
    host: Seq<u8>,
    sec: i32,
    usec: i32,
    u: x32::utmp,
)
    requires
        line.len() == 8,
        user.len() == 32,
        host.len() == 256,
        x32::decodes(order, line + user + host + stored_i32(order, sec) + stored_i32(order, usec), u),
    ensures
        u.ut_line@ == line,
        u.ut_user@ == user,
        u.ut_host@ == host,
        u.ut_tv.tv_sec == sec,
        u.ut_tv.tv_usec == usec,
{
    let s = stored_i32(order, sec);
    let us = stored_i32(order, usec);
    let b = line + user + host + s + us;
    lemma_auto_spec_u32_to_from_le_bytes();
    assert(b.subrange(0, 8) =~= line);
    assert(b.subrange(8, 40) =~= user);
    assert(b.subrange(40, 296) =~= host);
    assert(b.subrange(296, 300) =~= s);
    assert(b.subrange(300, 304) =~= us);
    assert(crate::le_order(order, s) =~= spec_u32_to_le_bytes(sec as u32));
    assert(crate::le_order(order, us) =~= spec_u32_to_le_bytes(usec as u32));
    assert((sec as u32) as i32 == sec) by (bit_vector);
    assert((usec as u32) as i32 == usec) by (bit_vector);
}

/// The item of a 64-bit record written in byte order `order`, with texts
/// without zero characters (each UTF-8 encoded, terminated and padded) and
/// these time values: the entry of those texts at that instant when the time
/// stamp is valid, and otherwise an `InvalidTime` error holding those values.
pub proof fn lemma_x64_written_record_item(
    order: ByteOrder,
    line: Seq<char>,
    user: Seq<char>,
    host: Seq<char>,
    line_pad: Seq<u8>,
    user_pad: Seq<u8>,
    host_pad: Seq<u8>,
    sec: i64,
    usec: i64,
)
    requires
        without_zero_chars(line),
        without_zero_chars(user),
        without_zero_chars(host),
        encode_utf8(line).len() + 1 + line_pad.len() == 8,
        encode_utf8(user).len() + 1 + user_pad.len() == 32,
        encode_utf8(host).len() + 1 + host_pad.len() == 256,
    ensures
        ({
            let rec = encode_utf8(line) + seq![0u8] + line_pad + (encode_utf8(user) + seq![0u8]
                + user_pad) + (encode_utf8(host) + seq![0u8] + host_pad) + stored_i64(order, sec)
                + stored_i64(order, usec);
            let n = (sec * 1_000_000 + usec) * 1000;
            let item = spec_record_item(RecordFormat { layout: RecordLayout::X64, order }, rec);
            &&& (usec >= 0 && -377_705_116_800_000_000_000 <= n < 253_402_300_800_000_000_000)
                ==> item == Ok::<EntryModel, ParseErrorModel>(
                EntryModel { line, user, host, time: n },
            )
            &&& !(usec >= 0 && -377_705_116_800_000_000_000 <= n < 253_402_300_800_000_000_000)
                ==> item == Err::<EntryModel, ParseErrorModel>(
                ParseErrorModel::Utmp(
                    UtmpErrorModel::InvalidTime(x64::timeval { tv_sec: sec, tv_usec: usec }),
                ),
            )
        }),
{
    let l = encode_utf8(line) + seq![0u8] + line_pad;
    let u = encode_utf8(user) + seq![0u8] + user_pad;
    let h = encode_utf8(host) + seq![0u8] + host_pad;
    let s = stored_i64(order, sec);
    let us = stored_i64(order, usec);
    let rec = l + u + h + s + us;
    lemma_auto_spec_u64_to_from_le_bytes();
    assert(rec.subrange(0, 8) =~= l);
    assert(rec.subrange(8, 40) =~= u);
    assert(rec.subrange(40, 296) =~= h);
    assert(rec.subrange(296, 304) =~= s);
    assert(rec.subrange(304, 312) =~= us);
    assert(crate::le_order(order, s) =~= spec_u64_to_le_bytes(sec as u64));
    assert(crate::le_order(order, us) =~= spec_u64_to_le_bytes(usec as u64));
    assert((sec as u64) as i64 == sec) by (bit_vector);
    assert((usec as u64) as i64 == usec) by (bit_vector);
    assert(x64::spec_record_tv(order, rec) == x64::timeval { tv_sec: sec, tv_usec: usec });
    crate::entry::lemma_field_round_trip(line, line_pad);
    crate::entry::lemma_field_round_trip(user, user_pad);
    crate::entry::lemma_field_round_trip(host, host_pad);
    lemma_time_stamp_value(x64::timeval { tv_sec: sec, tv_usec: usec });
}

/// The item of a 32-bit record written in byte order `order`, with texts
/// without zero characters (each UTF-8 encoded, terminated and padded) and
/// these time values: the entry of those texts at that instant when the time
/// stamp is valid, and otherwise an `InvalidTime` error holding those values
/// widened.
pub proof fn lemma_x32_written_record_item(
    order: ByteOrder,
    line: Seq<char>,
    user: Seq<char>,
    host: Seq<char>,
    line_pad: Seq<u8>,
    user_pad: Seq<u8>,
    host_pad: Seq<u8>,
    sec: i32,
    usec: i32,
)
    requires
        without_zero_chars(line),
        without_zero_chars(user),
        without_zero_chars(host),
        encode_utf8(line).len() + 1 + line_pad.len() == 8,
        encode_utf8(user).len() + 1 + user_pad.len() == 32,
        encode_utf8(host).len() + 1 + host_pad.len() == 256,
    ensures
        ({
            let rec = encode_utf8(line) + seq![0u8] + line_pad + (encode_utf8(user) + seq![0u8]
                + user_pad) + (encode_utf8(host) + seq![0u8] + host_pad) + stored_i32(order, sec)
                + stored_i32(order, usec);
            let n = (sec * 1_000_000 + usec) * 1000;
            let item = spec_record_item(RecordFormat { layout: RecordLayout::X32, order }, rec);
            &&& (usec >= 0 && -377_705_116_800_000_000_000 <= n < 253_402_300_800_000_000_000)
                ==> item == Ok::<EntryModel, ParseErrorModel>(
                EntryModel { line, user, host, time: n },
            )
            &&& !(usec >= 0 && -377_705_116_800_000_000_000 <= n < 253_402_300_800_000_000_000)
                ==> item == Err::<EntryModel, ParseErrorModel>(
                ParseErrorModel::Utmp(
                    UtmpErrorModel::InvalidTime(
                        x64::timeval { tv_sec: sec as i64, tv_usec: usec as i64 },
                    ),
                ),
            )
        }),
{
    let l = encode_utf8(line) + seq![0u8] + line_pad;
    let u = encode_utf8(user) + seq![0u8] + user_pad;
    let h = encode_utf8(host) + seq![0u8] + host_pad;
    let s = stored_i32(order, sec);
    let us = stored_i32(order, usec);
    let rec = l + u + h + s + us;
    lemma_auto_spec_u32_to_from_le_bytes();
    assert(rec.subrange(0, 8) =~= l);
    assert(rec.subrange(8, 40) =~= u);
    assert(rec.subrange(40, 296) =~= h);
    assert(rec.subrange(296, 300) =~= s);
    assert(rec.subrange(300, 304) =~= us);
    assert(crate::le_order(order, s) =~= spec_u32_to_le_bytes(sec as u32));
    assert(crate::le_order(order, us) =~= spec_u32_to_le_bytes(usec as u32));
    assert((sec as u32) as i32 == sec) by (bit_vector);
    assert((usec as u32) as i32 == usec) by (bit_vector);
    let tv = x64::timeval { tv_sec: sec as i64, tv_usec: usec as i64 };
    assert(x32::spec_record_tv(order, rec) == tv);
    crate::entry::lemma_field_round_trip(line, line_pad);
    crate::entry::lemma_field_round_trip(user, user_pad);
    crate::entry::lemma_field_round_trip(host, host_pad);
    lemma_time_stamp_value(tv);
}

} // verus!
