//! Reading records from a byte stream, one read at a time.
//!
//! The caller owns the stream. It asks [`RecordReader::remaining`] how many
//! bytes to request, performs the read, and hands what happened to
//! [`RecordReader::step`] as a [`ReadEvent`]; the returned [`Step`] says
//! whether to read again, that the stream has ended, or gives the next item.

use vstd::prelude::*;

use crate::entry::{
    entry_result_view, lemma_field_round_trip, no_nul_chars, spec_entry, spec_time_from_tv,
    unix_nanos, EntryModel, UtmpEntry, UtmpError, UtmpErrorModel,
};
use vstd::bytes::{
    lemma_auto_spec_u32_to_from_le_bytes, lemma_auto_spec_u64_to_from_le_bytes,
    spec_u32_to_le_bytes, spec_u64_to_le_bytes,
};
use vstd::utf8::encode_utf8;
use crate::{le_order, lemma_le_order_twice, x32, x64, ByteOrder};

verus! {

/// The two record layouts.
#[derive(Clone, Copy, Debug, PartialEq, Eq)]
pub enum RecordLayout {
    /// Records with 32-bit time fields (`x32::utmp`).
    X32,
    /// Records with 64-bit time fields (`x64::utmp`).
    X64,
}

/// How the records of a stream are written: their layout, and the byte order
/// of their integers (that of the machine that wrote them).
#[derive(Clone, Copy, Debug, PartialEq, Eq)]
pub struct RecordFormat {
    pub layout: RecordLayout,
    pub order: ByteOrder,
}

impl RecordFormat {
    /// Size in bytes of one record.
    pub open spec fn spec_record_size(self) -> nat {
        match self.layout {
            RecordLayout::X32 => 304,
            RecordLayout::X64 => 312,
        }
    }

    /// Size in bytes of one record.
    pub fn record_size(&self) -> (r: usize)
        ensures
            r == self.spec_record_size(),
    {
        match self.layout {
            RecordLayout::X32 => x32::UTMP_SIZE,
            RecordLayout::X64 => x64::UTMP_SIZE,
        }
    }
}

/// The entry that one record's bytes make: its three text fields, then its
/// time stamp in the width and byte order of the format.
pub open spec fn spec_record_entry(format: RecordFormat, rec: Seq<u8>) -> Result<
    EntryModel,
    UtmpErrorModel,
> {
    let tv = match format.layout {
        RecordLayout::X32 => x32::spec_record_tv(format.order, rec),
        RecordLayout::X64 => x64::spec_record_tv(format.order, rec),
    };
    spec_entry(rec.subrange(0, 8), rec.subrange(8, 40), rec.subrange(40, 296), tv)
}

/// The entry that one record's bytes make.
pub fn entry_from_record(format: RecordFormat, rec: &[u8]) -> (r: Result<UtmpEntry, UtmpError>)
    requires
        rec@.len() == format.spec_record_size(),
    ensures
        entry_result_view(r) == spec_record_entry(format, rec@),
{
    match format.layout {
        RecordLayout::X32 => {
            let u = x32::utmp::from_bytes(rec, format.order);
            UtmpEntry::try_from_x32(&u)
        },
        RecordLayout::X64 => {
            let u = x64::utmp::from_bytes(rec, format.order);
            UtmpEntry::try_from_x64(&u)
        },
    }
}

/// Why reading entries from a stream stopped.
#[derive(Debug)]
#[non_exhaustive]
pub enum ParseError {
    /// A complete record did not make an entry.
    Utmp(UtmpError),
    /// The stream ended inside a record.
    UnexpectedEof,
}

/// What a parse error holds, as mathematical values.
pub enum ParseErrorModel {
    Utmp(UtmpErrorModel),
    UnexpectedEof,
}

impl View for ParseError {
    type V = ParseErrorModel;

    open spec fn view(&self) -> ParseErrorModel {
        match self {
            ParseError::Utmp(e) => ParseErrorModel::Utmp(e@),
            ParseError::UnexpectedEof => ParseErrorModel::UnexpectedEof,
        }
    }
}

/// One item of a stream, as mathematical values.
pub type ItemModel = Result<EntryModel, ParseErrorModel>;

/// The value of an item.
pub open spec fn item_view(r: Result<UtmpEntry, ParseError>) -> ItemModel {
    match r {
        Ok(e) => Ok(e@),
        Err(e) => Err(e@),
    }
}

/// The item that one complete record gives.
pub open spec fn spec_record_item(format: RecordFormat, rec: Seq<u8>) -> ItemModel {
    match spec_record_entry(format, rec) {
        Ok(e) => Ok(e),
        Err(e) => Err(ParseErrorModel::Utmp(e)),
    }
}

/// What one read of the stream gave.
pub enum ReadEvent {
    /// The read returned these bytes; no bytes means the stream has ended.
    Data(Vec<u8>),
    /// The read was interrupted before anything was read; it may be retried.
    Interrupted,
    /// The read failed.
    Failed,
}

/// What a read event holds, as mathematical values.
pub enum ReadEventModel {
    Data(Seq<u8>),
    Interrupted,
    Failed,
}

impl View for ReadEvent {
    type V = ReadEventModel;

    open spec fn view(&self) -> ReadEventModel {
        match self {
            ReadEvent::Data(b) => ReadEventModel::Data(b@),
            ReadEvent::Interrupted => ReadEventModel::Interrupted,
            ReadEvent::Failed => ReadEventModel::Failed,
        }
    }
}

/// What the caller does next.
pub enum Step {
    /// Read again.
    ReadMore,
    /// The stream has ended between records: there are no more items.
    End,
    /// The next item of the stream.
    Item(Result<UtmpEntry, ParseError>),
    /// The read failed; the caller hands its own error on. The bytes of the
    /// record in progress are dropped.
    ReadFailed,
}

/// What a step holds, as mathematical values.
pub enum StepModel {
    ReadMore,
    End,
    Item(ItemModel),
    ReadFailed,
}

impl View for Step {
    type V = StepModel;

    open spec fn view(&self) -> StepModel {
        match self {
            Step::ReadMore => StepModel::ReadMore,
            Step::End => StepModel::End,
            Step::Item(r) => StepModel::Item(item_view(*r)),
            Step::ReadFailed => StepModel::ReadFailed,
        }
    }
}

/// One move of the reader: from the bytes of the record in progress and
/// what a read gave, to the bytes now in progress and what to do next.
///
/// An interrupted read changes nothing. A failed read drops the record in
/// progress. No bytes ends the stream: cleanly between records, with
/// `UnexpectedEof` inside one. Bytes that complete a record give its item;
/// other bytes are kept.
pub open spec fn spec_step(format: RecordFormat, pending: Seq<u8>, event: ReadEventModel) -> (
    Seq<u8>,
    StepModel,
) {
    match event {
        ReadEventModel::Interrupted => (pending, StepModel::ReadMore),
        ReadEventModel::Failed => (Seq::empty(), StepModel::ReadFailed),
        ReadEventModel::Data(c) => if c.len() == 0 {
            if pending.len() == 0 {
                (pending, StepModel::End)
            } else {
                (Seq::empty(), StepModel::Item(Err(ParseErrorModel::UnexpectedEof)))
            }
        } else if pending.len() + c.len() == format.spec_record_size() {
            (Seq::empty(), StepModel::Item(spec_record_item(format, pending + c)))
        } else {
            (pending + c, StepModel::ReadMore)
        },
    }
}

/// The reading state of one stream: its layout and the bytes read so far of
/// the record in progress.
pub struct RecordReader {
    format: RecordFormat,
    pending: Vec<u8>,
}

impl RecordReader {
    /// The layout of the stream.
    pub closed spec fn spec_format(&self) -> RecordFormat {
        self.format
    }

    /// The bytes read so far of the record in progress.
    pub closed spec fn pending(&self) -> Seq<u8> {
        self.pending@
    }

    /// Fewer bytes are in progress than a record holds.
    pub open spec fn wf(&self) -> bool {
        self.pending().len() < self.spec_format().spec_record_size()
    }

    /// A reader at the start of a stream of records in `format`.
    pub fn new(format: RecordFormat) -> (r: RecordReader)
        ensures
            r.wf(),
            r.spec_format() == format,
            r.pending() == Seq::<u8>::empty(),
    {
        RecordReader { format, pending: Vec::new() }
    }

    /// The layout of the stream.
    pub fn format(&self) -> (r: RecordFormat)
        ensures
            r == self.spec_format(),
    {
        self.format
    }

    /// How many bytes the next read may return: the rest of the record in
    /// progress.
    pub fn remaining(&self) -> (r: usize)
        requires
            self.wf(),
        ensures
            r == self.spec_format().spec_record_size() - self.pending().len(),
            r > 0,
    {
        self.format.record_size() - self.pending.len()
    }

    /// Takes in what a read gave and says what to do next (see `spec_step`).
    /// A read never returns more bytes than it was asked for.
    pub fn step(&mut self, event: ReadEvent) -> (s: Step)
        requires
            old(self).wf(),
            event matches ReadEvent::Data(c) ==> c@.len() <= old(
                self,
            ).spec_format().spec_record_size() - old(self).pending().len(),
        ensures
            final(self).wf(),
            final(self).spec_format() == old(self).spec_format(),
            (final(self).pending(), s@) == spec_step(
                old(self).spec_format(),
                old(self).pending(),
                event@,
            ),
    {
        let size = self.format.record_size();
        match event {
            ReadEvent::Interrupted => Step::ReadMore,
            ReadEvent::Failed => {
                self.pending = Vec::new();
                Step::ReadFailed
            },
            ReadEvent::Data(chunk) => {
                if chunk.len() == 0 {
                    if self.pending.len() == 0 {
                        Step::End
                    } else {
                        self.pending = Vec::new();
                        Step::Item(Err(ParseError::UnexpectedEof))
                    }
                } else {
                    let mut chunk = chunk;
                    let ghost before = self.pending@;
                    self.pending.append(&mut chunk);
                    assert(self.pending@ == before + event@->Data_0);
                    if self.pending.len() == size {
                        let item = match entry_from_record(self.format, self.pending.as_slice()) {
                            Ok(e) => Ok(e),
                            Err(e) => Err(ParseError::Utmp(e)),
                        };
                        self.pending = Vec::new();
                        Step::Item(item)
                    } else {
                        Step::ReadMore
                    }
                }
            },
        }
    }
}

/// Reads that return `chunks` one after the other can happen: each read
/// returns some bytes, and never more than the rest of the record in
/// progress, of which `filled` bytes were read before.
pub open spec fn chunks_fit(size: nat, filled: nat, chunks: Seq<Seq<u8>>) -> bool
    decreases chunks.len(),
{
    chunks.len() == 0 || {
        &&& 0 < chunks[0].len()
        &&& filled + chunks[0].len() <= size
        &&& chunks_fit(size, (filled + chunks[0].len()) % size as nat, chunks.drop_first())
    }
}

/// The bytes in progress, and the items given, after reads that return
/// `chunks` one after the other.
pub open spec fn spec_feed(format: RecordFormat, pending: Seq<u8>, chunks: Seq<Seq<u8>>) -> (
    Seq<u8>,
    Seq<ItemModel>,
)
    decreases chunks.len(),
{
    if chunks.len() == 0 {
        (pending, Seq::empty())
    } else {
        let (next, step) = spec_step(format, pending, ReadEventModel::Data(chunks[0]));
        let (last, items) = spec_feed(format, next, chunks.drop_first());
        match step {
            StepModel::Item(r) => (last, seq![r] + items),
            _ => (last, items),
        }
    }
}

/// The items of the complete records at the front of `bytes`, in order.
pub open spec fn spec_records(format: RecordFormat, bytes: Seq<u8>) -> Seq<ItemModel>
    decreases bytes.len(),
{
    let size = format.spec_record_size();
    if bytes.len() < size {
        Seq::empty()
    } else {
        seq![spec_record_item(format, bytes.take(size as int))] + spec_records(
            format,
            bytes.skip(size as int),
        )
    }
}

/// The bytes after the last complete record of `bytes`.
pub open spec fn spec_leftover(format: RecordFormat, bytes: Seq<u8>) -> Seq<u8>
    decreases bytes.len(),
{
    let size = format.spec_record_size();
    if bytes.len() < size {
        bytes
    } else {
        spec_leftover(format, bytes.skip(size as int))
    }
}

/// All items of a stream that holds `bytes`: one per complete record, then
/// `UnexpectedEof` if the stream ends inside a record.
pub open spec fn spec_stream_items(format: RecordFormat, bytes: Seq<u8>) -> Seq<ItemModel> {
    spec_records(format, bytes) + if spec_leftover(format, bytes).len() == 0 {
        Seq::<ItemModel>::empty()
    } else {
        seq![Err(ParseErrorModel::UnexpectedEof)]
    }
}

/// However the reads split a stream, the items are those of its records:
/// after reads that return `chunks`, on top of the bytes `pending` of a
/// record in progress, the items given are those of the complete records of
/// `pending` followed by the chunks, and the bytes after them are in
/// progress.
pub proof fn lemma_reads_give_records(
    format: RecordFormat,
    pending: Seq<u8>,
    chunks: Seq<Seq<u8>>,
)
    requires
        pending.len() < format.spec_record_size(),
        chunks_fit(format.spec_record_size(), pending.len(), chunks),
    ensures
        spec_feed(format, pending, chunks) == (
            spec_leftover(format, pending + chunks.flatten()),
            spec_records(format, pending + chunks.flatten()),
        ),
    decreases chunks.len(),
{
    let size = format.spec_record_size();
    if chunks.len() == 0 {
        assert(chunks.flatten() =~= Seq::<u8>::empty());
        assert(pending + chunks.flatten() =~= pending);
    } else {
        let c = chunks[0];
        let rest = chunks.drop_first();
        let all = pending + chunks.flatten();
        assert(chunks.flatten() == c + rest.flatten());
        if pending.len() + c.len() == size {
            lemma_reads_give_records(format, Seq::empty(), rest);
            assert(Seq::<u8>::empty() + rest.flatten() =~= rest.flatten());
            assert(all.take(size as int) =~= pending + c);
            assert(all.skip(size as int) =~= rest.flatten());
        } else {
            assert((pending.len() + c.len()) % size == pending.len() + c.len());
            lemma_reads_give_records(format, pending + c, rest);
            assert((pending + c) + rest.flatten() =~= all);
        }
    }
}

/// Reading a whole stream, in whatever pieces the reads return, and then
/// hitting its end, gives exactly the items of the stream; the end is clean
/// exactly when the stream holds whole records only.
pub proof fn lemma_stream_items(format: RecordFormat, chunks: Seq<Seq<u8>>)
    requires
        chunks_fit(format.spec_record_size(), 0, chunks),
    ensures
        ({
            let (pending, items) = spec_feed(format, Seq::empty(), chunks);
            let (after, last) = spec_step(format, pending, ReadEventModel::Data(Seq::empty()));
            &&& after == Seq::<u8>::empty()
            &&& (last is End <==> spec_leftover(format, chunks.flatten()).len() == 0)
            &&& items + match last {
                StepModel::Item(r) => seq![r],
                _ => Seq::<ItemModel>::empty(),
            } == spec_stream_items(format, chunks.flatten())
        }),
{
    lemma_reads_give_records(format, Seq::empty(), chunks);
    assert(Seq::<u8>::empty() + chunks.flatten() =~= chunks.flatten());
    let (pending, items) = spec_feed(format, Seq::empty(), chunks);
    let (after, last) = spec_step(format, pending, ReadEventModel::Data(Seq::empty()));
    assert(items + match last {
        StepModel::Item(r) => seq![r],
        _ => Seq::<ItemModel>::empty(),
    } =~= spec_stream_items(format, chunks.flatten()));
}

/// Two ways of reading the same bytes give the same items.
pub proof fn lemma_reads_agree(format: RecordFormat, a: Seq<Seq<u8>>, b: Seq<Seq<u8>>)
    requires
        chunks_fit(format.spec_record_size(), 0, a),
        chunks_fit(format.spec_record_size(), 0, b),
        a.flatten() == b.flatten(),
    ensures
        spec_feed(format, Seq::empty(), a) == spec_feed(format, Seq::empty(), b),
{
    lemma_reads_give_records(format, Seq::empty(), a);
    lemma_reads_give_records(format, Seq::empty(), b);
}

/// The bytes of a text field: the UTF-8 encoding of `text`, a zero byte,
/// then `pad`.
pub open spec fn field_bytes(text: Seq<char>, pad: Seq<u8>) -> Seq<u8> {
    encode_utf8(text) + seq![0u8] + pad
}

/// Both sides of an `i64` to `u64` cast back again.
proof fn lemma_i64_u64_round_trip(x: i64)
    ensures
        (x as u64) as i64 == x,
{
    assert((x as u64) as i64 == x) by (bit_vector);
}

/// Both sides of an `i32` to `u32` cast back again.
proof fn lemma_i32_u32_round_trip(x: i32)
    ensures
        (x as u32) as i32 == x,
{
    assert((x as u32) as i32 == x) by (bit_vector);
}

/// The eight bytes in which a machine with byte order `order` stores `x`.
pub open spec fn int_bytes64(order: ByteOrder, x: u64) -> Seq<u8> {
    le_order(order, spec_u64_to_le_bytes(x))
}

/// The four bytes in which a machine with byte order `order` stores `x`.
pub open spec fn int_bytes32(order: ByteOrder, x: u32) -> Seq<u8> {
    le_order(order, spec_u32_to_le_bytes(x))
}

/// A 64-bit record written in byte order `order` with three texts (without
/// zero characters, each terminated and padded to its field) and a valid time
/// stamp reads back, in that order, as the entry of those texts at that
/// instant.
pub proof fn lemma_record_round_trip_x64(
    order: ByteOrder,
    line: Seq<char>,
    user: Seq<char>,
    host: Seq<char>,
    line_pad: Seq<u8>,
    user_pad: Seq<u8>,
    host_pad: Seq<u8>,
    tv: x64::timeval,
)
    requires
        no_nul_chars(line),
        no_nul_chars(user),
        no_nul_chars(host),
        field_bytes(line, line_pad).len() == 8,
        field_bytes(user, user_pad).len() == 32,
        field_bytes(host, host_pad).len() == 256,
        spec_time_from_tv(tv) is Some,
    ensures
        spec_record_entry(
            RecordFormat { layout: RecordLayout::X64, order },
            field_bytes(line, line_pad) + field_bytes(user, user_pad) + field_bytes(host, host_pad)
                + int_bytes64(order, tv.tv_sec as u64) + int_bytes64(order, tv.tv_usec as u64),
        ) == Ok::<EntryModel, UtmpErrorModel>(
            EntryModel { line, user, host, time: unix_nanos(tv) },
        ),
{
    let l = field_bytes(line, line_pad);
    let u = field_bytes(user, user_pad);
    let h = field_bytes(host, host_pad);
    let s = int_bytes64(order, tv.tv_sec as u64);
    let us = int_bytes64(order, tv.tv_usec as u64);
    let rec = l + u + h + s + us;
    lemma_auto_spec_u64_to_from_le_bytes();
    lemma_le_order_twice(order, spec_u64_to_le_bytes(tv.tv_sec as u64));
    lemma_le_order_twice(order, spec_u64_to_le_bytes(tv.tv_usec as u64));
    lemma_i64_u64_round_trip(tv.tv_sec);
    lemma_i64_u64_round_trip(tv.tv_usec);
    assert(rec.subrange(0, 8) =~= l);
    assert(rec.subrange(8, 40) =~= u);
    assert(rec.subrange(40, 296) =~= h);
    assert(rec.subrange(296, 304) =~= s);
    assert(rec.subrange(304, 312) =~= us);
    lemma_field_round_trip(line, line_pad);
    lemma_field_round_trip(user, user_pad);
    lemma_field_round_trip(host, host_pad);
    assert(x64::spec_record_tv(order, rec) == tv);
}

/// A 32-bit record written in byte order `order` with three texts (without
/// zero characters, each terminated and padded to its field) and a time stamp
/// whose 64-bit widening is valid reads back, in that order, as the entry of
/// those texts at that instant.
pub proof fn lemma_record_round_trip_x32(
    order: ByteOrder,
    line: Seq<char>,
    user: Seq<char>,
    host: Seq<char>,
    line_pad: Seq<u8>,
    user_pad: Seq<u8>,
    host_pad: Seq<u8>,
    tv: x32::timeval,
)
    requires
        no_nul_chars(line),
        no_nul_chars(user),
        no_nul_chars(host),
        field_bytes(line, line_pad).len() == 8,
        field_bytes(user, user_pad).len() == 32,
        field_bytes(host, host_pad).len() == 256,
        spec_time_from_tv(x64::timeval { tv_sec: tv.tv_sec as i64, tv_usec: tv.tv_usec as i64 })
            is Some,
    ensures
        spec_record_entry(
            RecordFormat { layout: RecordLayout::X32, order },
            field_bytes(line, line_pad) + field_bytes(user, user_pad) + field_bytes(host, host_pad)
                + int_bytes32(order, tv.tv_sec as u32) + int_bytes32(order, tv.tv_usec as u32),
        ) == Ok::<EntryModel, UtmpErrorModel>(
            EntryModel {
                line,
                user,
                host,
                time: unix_nanos(
                    x64::timeval { tv_sec: tv.tv_sec as i64, tv_usec: tv.tv_usec as i64 },
                ),
            },
        ),
{
    let l = field_bytes(line, line_pad);
    let u = field_bytes(user, user_pad);
    let h = field_bytes(host, host_pad);
    let s = int_bytes32(order, tv.tv_sec as u32);
    let us = int_bytes32(order, tv.tv_usec as u32);
    let rec = l + u + h + s + us;
    lemma_auto_spec_u32_to_from_le_bytes();
    lemma_le_order_twice(order, spec_u32_to_le_bytes(tv.tv_sec as u32));
    lemma_le_order_twice(order, spec_u32_to_le_bytes(tv.tv_usec as u32));
    lemma_i32_u32_round_trip(tv.tv_sec);
    lemma_i32_u32_round_trip(tv.tv_usec);
    assert(rec.subrange(0, 8) =~= l);
    assert(rec.subrange(8, 40) =~= u);
    assert(rec.subrange(40, 296) =~= h);
    assert(rec.subrange(296, 300) =~= s);
    assert(rec.subrange(300, 304) =~= us);
    lemma_field_round_trip(line, line_pad);
    lemma_field_round_trip(user, user_pad);
    lemma_field_round_trip(host, host_pad);
}

} // verus!
