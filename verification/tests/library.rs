use utmp_classic::entry::{MAX_UNIX_SECONDS, MIN_UNIX_SECONDS};
use utmp_classic::parse::{RecordLayout, entry_from_record, ReadEvent, RecordFormat, RecordReader, Step};
use utmp_classic::ByteOrder;
use utmp_classic::{cstr_from_bytes, first_nul_index, string_from_bytes, time_from_tv};
use utmp_classic::{x32, x64, ParseError, UtmpEntry, UtmpError};

const X32LE: RecordFormat = RecordFormat { layout: RecordLayout::X32, order: ByteOrder::Little };
const X64LE: RecordFormat = RecordFormat { layout: RecordLayout::X64, order: ByteOrder::Little };


fn field(text: &[u8], size: usize) -> Vec<u8> {
    let mut out = text.to_vec();
    out.resize(size, 0);
    out
}

fn record64(line: &[u8], user: &[u8], host: &[u8], sec: i64, usec: i64) -> Vec<u8> {
    let mut out = field(line, 8);
    out.extend(field(user, 32));
    out.extend(field(host, 256));
    out.extend(sec.to_le_bytes());
    out.extend(usec.to_le_bytes());
    out
}

fn record32(line: &[u8], user: &[u8], host: &[u8], sec: i32, usec: i32) -> Vec<u8> {
    let mut out = field(line, 8);
    out.extend(field(user, 32));
    out.extend(field(host, 256));
    out.extend(sec.to_le_bytes());
    out.extend(usec.to_le_bytes());
    out
}

fn entry(line: &str, user: &str, host: &str, time: i128) -> UtmpEntry {
    UtmpEntry::UTMP { line: line.to_owned(), user: user.to_owned(), host: host.to_owned(), time }
}

/// Feeds `chunks` to a fresh reader, then the end of the stream, collecting
/// every item.
fn run(format: RecordFormat, chunks: &[&[u8]]) -> Vec<Result<UtmpEntry, ParseError>> {
    let mut reader = RecordReader::new(format);
    let mut items = Vec::new();
    for c in chunks.iter().chain(std::iter::once(&&[][..])) {
        match reader.step(ReadEvent::Data(c.to_vec())) {
            Step::Item(item) => items.push(item),
            Step::ReadMore | Step::End => {}
            Step::ReadFailed => unreachable!(),
        }
    }
    items
}

fn split(bytes: &[u8], size: usize, piece: usize) -> Vec<&[u8]> {
    let mut out = Vec::new();
    for rec in bytes.chunks(size) {
        out.extend(rec.chunks(piece));
    }
    out
}

#[test]
fn first_nul_index_finds_first_zero() {
    assert_eq!(first_nul_index(b"ab\0c\0"), Some(2));
    assert_eq!(first_nul_index(b"\0"), Some(0));
    assert_eq!(first_nul_index(b"abc"), None);
    assert_eq!(first_nul_index(b""), None);
}

#[test]
fn cstr_keeps_bytes_through_terminator() {
    assert_eq!(cstr_from_bytes(b"tty\0xx\0"), b"tty\0".to_vec());
    assert_eq!(cstr_from_bytes(b"\0abc"), b"\0".to_vec());
}

#[test]
fn cstr_of_unterminated_field_is_question_marks() {
    assert_eq!(cstr_from_bytes(b"abcd"), b"???\0".to_vec());
    assert_eq!(cstr_from_bytes(b""), b"???\0".to_vec());
}

#[test]
fn string_from_bytes_reads_text_before_terminator() {
    assert_eq!(string_from_bytes(b"jadi\0\0\0").unwrap(), "jadi");
    assert_eq!(string_from_bytes(b"\0junk").unwrap(), "");
    assert_eq!(string_from_bytes(b"ab\0\xff\xff").unwrap(), "ab");
}

#[test]
fn string_from_bytes_decodes_utf8() {
    assert_eq!(string_from_bytes("héllo\0".as_bytes()).unwrap(), "héllo");
    assert_eq!(string_from_bytes("日本\0x".as_bytes()).unwrap(), "日本");
}

#[test]
fn string_from_bytes_refuses_unterminated_field() {
    assert_eq!(string_from_bytes(b"abc").unwrap_err(), b"abc".to_vec());
}

#[test]
fn string_from_bytes_refuses_invalid_utf8() {
    assert_eq!(string_from_bytes(b"a\xffb\0c").unwrap_err(), b"a\xffb\0c".to_vec());
    // an overlong encoding of '/'
    assert_eq!(string_from_bytes(b"\xc0\xaf\0").unwrap_err(), b"\xc0\xaf\0".to_vec());
    // a surrogate
    assert_eq!(string_from_bytes(b"\xed\xa0\x80\0").unwrap_err(), b"\xed\xa0\x80\0".to_vec());
}

#[test]
fn time_from_tv_gives_nanoseconds() {
    let tv = x64::timeval { tv_sec: 1714663553, tv_usec: 250 };
    assert_eq!(time_from_tv(tv).unwrap(), 1714663553_000_250_000);
    let tv = x64::timeval { tv_sec: 0, tv_usec: 0 };
    assert_eq!(time_from_tv(tv).unwrap(), 0);
    let tv = x64::timeval { tv_sec: -1, tv_usec: 0 };
    assert_eq!(time_from_tv(tv).unwrap(), -1_000_000_000);
}

#[test]
fn time_from_tv_adds_large_microseconds() {
    let tv = x64::timeval { tv_sec: 10, tv_usec: 2_500_000 };
    assert_eq!(time_from_tv(tv).unwrap(), 12_500_000_000);
}

#[test]
fn time_from_tv_refuses_negative_microseconds() {
    let tv = x64::timeval { tv_sec: 1714663553, tv_usec: -1 };
    match time_from_tv(tv) {
        Err(UtmpError::InvalidTime(t)) => assert_eq!((t.tv_sec, t.tv_usec), (1714663553, -1)),
        other => panic!("unexpected {:?}", other),
    }
}

#[test]
fn time_from_tv_range_edges() {
    let last = x64::timeval { tv_sec: MAX_UNIX_SECONDS, tv_usec: 999_999 };
    assert_eq!(time_from_tv(last).unwrap(), MAX_UNIX_SECONDS as i128 * 1_000_000_000 + 999_999_000);
    let after = x64::timeval { tv_sec: MAX_UNIX_SECONDS + 1, tv_usec: 0 };
    assert!(matches!(time_from_tv(after), Err(UtmpError::InvalidTime(_))));
    let first = x64::timeval { tv_sec: MIN_UNIX_SECONDS, tv_usec: 0 };
    assert_eq!(time_from_tv(first).unwrap(), MIN_UNIX_SECONDS as i128 * 1_000_000_000);
    let before = x64::timeval { tv_sec: MIN_UNIX_SECONDS - 1, tv_usec: 999_999 };
    assert!(matches!(time_from_tv(before), Err(UtmpError::InvalidTime(_))));
    let huge = x64::timeval { tv_sec: i64::MAX, tv_usec: i64::MAX };
    assert!(matches!(time_from_tv(huge), Err(UtmpError::InvalidTime(_))));
    let tiny = x64::timeval { tv_sec: i64::MIN, tv_usec: 0 };
    assert!(matches!(time_from_tv(tiny), Err(UtmpError::InvalidTime(_))));
}

#[test]
fn utmp64_from_bytes_reads_fields() {
    let bytes = record64(b"ttyC3", b"jadi", b"host", -5, 7);
    let u = x64::utmp::from_bytes(&bytes, ByteOrder::Little);
    assert_eq!(&u.ut_line[..], &field(b"ttyC3", 8)[..]);
    assert_eq!(&u.ut_user[..], &field(b"jadi", 32)[..]);
    assert_eq!(&u.ut_host[..], &field(b"host", 256)[..]);
    assert_eq!((u.ut_tv.tv_sec, u.ut_tv.tv_usec), (-5, 7));
}

#[test]
fn utmp32_from_bytes_reads_fields() {
    let bytes = record32(b"ttyC3", b"jadi", b"", i32::MIN, 9);
    let u = x32::utmp::from_bytes(&bytes, ByteOrder::Little);
    assert_eq!(&u.ut_line[..], &field(b"ttyC3", 8)[..]);
    assert_eq!((u.ut_tv.tv_sec, u.ut_tv.tv_usec), (i32::MIN, 9));
    let w = u.to_x64();
    assert_eq!((w.ut_tv.tv_sec, w.ut_tv.tv_usec), (i32::MIN as i64, 9));
    assert_eq!(w.ut_user, u.ut_user);
}

#[test]
fn entry_from_x64_record() {
    let u = x64::utmp::from_bytes(&record64(b"ttyC3", b"jadi", b"", 1714663553, 0), ByteOrder::Little);
    assert_eq!(UtmpEntry::try_from_x64(&u).unwrap(), entry("ttyC3", "jadi", "", 1714663553_000_000_000));
}

#[test]
fn entry_from_x32_is_that_of_widened_record() {
    let u = x32::utmp::from_bytes(&record32(b"console", b"root", b"10.0.0.1", 1000, 5), ByteOrder::Little);
    let e = UtmpEntry::try_from_x32(&u).unwrap();
    assert_eq!(e, entry("console", "root", "10.0.0.1", 1000_000_005_000));
    assert_eq!(e, UtmpEntry::try_from_x64(&u.to_x64()).unwrap());
}

#[test]
fn entry_error_invalid_line() {
    let u = x64::utmp::from_bytes(&record64(b"abcdefgh", b"\xff", b"", 1, -1), ByteOrder::Little);
    match UtmpEntry::try_from_x64(&u) {
        Err(UtmpError::InvalidLine(b)) => assert_eq!(b, b"abcdefgh".to_vec()),
        other => panic!("unexpected {:?}", other),
    }
}

#[test]
fn entry_error_invalid_user() {
    let u = x64::utmp::from_bytes(&record64(b"tty", b"\xff\xfe", b"", 1, -1), ByteOrder::Little);
    match UtmpEntry::try_from_x64(&u) {
        Err(UtmpError::InvalidUser(b)) => assert_eq!(b, field(b"\xff\xfe", 32)),
        other => panic!("unexpected {:?}", other),
    }
}

#[test]
fn entry_error_invalid_host() {
    let host = vec![b'h'; 256];
    let u = x64::utmp::from_bytes(&record64(b"tty", b"u", &host, 1, -1), ByteOrder::Little);
    match UtmpEntry::try_from_x64(&u) {
        Err(UtmpError::InvalidHost(b)) => assert_eq!(b, host),
        other => panic!("unexpected {:?}", other),
    }
}

#[test]
fn entry_error_invalid_time() {
    let u = x64::utmp::from_bytes(&record64(b"tty", b"u", b"h", 3, -1), ByteOrder::Little);
    match UtmpEntry::try_from_x64(&u) {
        Err(UtmpError::InvalidTime(t)) => assert_eq!((t.tv_sec, t.tv_usec), (3, -1)),
        other => panic!("unexpected {:?}", other),
    }
}

#[test]
fn entry_from_record_both_layouts() {
    let e = entry_from_record(X64LE, &record64(b"a", b"b", b"c", 2, 0)).unwrap();
    assert_eq!(e, entry("a", "b", "c", 2_000_000_000));
    let e = entry_from_record(X32LE, &record32(b"a", b"b", b"c", 2, 0)).unwrap();
    assert_eq!(e, entry("a", "b", "c", 2_000_000_000));
    assert_eq!(X32LE.record_size(), 304);
    assert_eq!(X64LE.record_size(), 312);
}

#[test]
fn reader_empty_stream_ends() {
    let mut reader = RecordReader::new(X64LE);
    assert_eq!(reader.remaining(), 312);
    assert!(matches!(reader.step(ReadEvent::Data(Vec::new())), Step::End));
    assert_eq!(reader.format(), X64LE);
}

#[test]
fn reader_truncated_record_is_unexpected_eof() {
    let bytes = record64(b"a", b"b", b"c", 2, 0);
    let items = run(X64LE, &[&bytes[..], &bytes[..100]]);
    assert_eq!(items.len(), 2);
    assert_eq!(items[0].as_ref().unwrap(), &entry("a", "b", "c", 2_000_000_000));
    assert!(matches!(items[1], Err(ParseError::UnexpectedEof)));
}

#[test]
fn reader_counts_remaining_bytes() {
    let mut reader = RecordReader::new(X32LE);
    assert!(matches!(reader.step(ReadEvent::Data(vec![1; 100])), Step::ReadMore));
    assert_eq!(reader.remaining(), 204);
    assert!(matches!(reader.step(ReadEvent::Interrupted), Step::ReadMore));
    assert_eq!(reader.remaining(), 204);
}

#[test]
fn reader_failure_drops_partial_record() {
    let mut reader = RecordReader::new(X32LE);
    assert!(matches!(reader.step(ReadEvent::Data(vec![1; 100])), Step::ReadMore));
    assert!(matches!(reader.step(ReadEvent::Failed), Step::ReadFailed));
    assert_eq!(reader.remaining(), 304);
    assert!(matches!(reader.step(ReadEvent::Data(Vec::new())), Step::End));
}

#[test]
fn reader_reports_invalid_record() {
    let bytes = record32(b"a", b"b", b"c", 2, -7);
    let items = run(X32LE, &[&bytes[..]]);
    assert_eq!(items.len(), 1);
    assert!(matches!(&items[0], Err(ParseError::Utmp(UtmpError::InvalidTime(_)))));
}

#[test]
fn reads_agree_whatever_the_pieces() {
    let mut bytes = record64(b"tty1", b"alice", b"", 100, 1);
    bytes.extend(record64(b"tty2", b"bob", b"remote", 200, 2));
    bytes.extend(record64(b"tty3", b"\xff", b"", 300, 3));
    let whole = run(X64LE, &split(&bytes, 312, 312));
    for piece in [1, 7, 100, 311] {
        let pieces = run(X64LE, &split(&bytes, 312, piece));
        assert_eq!(pieces.len(), whole.len());
        for (a, b) in pieces.iter().zip(whole.iter()) {
            match (a, b) {
                (Ok(x), Ok(y)) => assert_eq!(x, y),
                (Err(ParseError::Utmp(UtmpError::InvalidUser(x))), Err(ParseError::Utmp(UtmpError::InvalidUser(y)))) => assert_eq!(x, y),
                _ => panic!("items differ"),
            }
        }
    }
    assert_eq!(whole.len(), 3);
    assert_eq!(whole[1].as_ref().unwrap(), &entry("tty2", "bob", "remote", 200_000_002_000));
}

#[test]
fn written_record_reads_back() {
    let bytes = record64("pts/1".as_bytes(), "ünïcode".as_bytes(), b"example.org", 1714663553, 123456);
    let e = entry_from_record(X64LE, &bytes).unwrap();
    assert_eq!(e, entry("pts/1", "ünïcode", "example.org", 1714663553_123_456_000));
}

#[test]
fn constants_keep_their_values() {
    assert_eq!(utmp_classic::UT_LINESIZE, 8);
    assert_eq!(utmp_classic::UT_NAMESIZE, 32);
    assert_eq!(utmp_classic::UT_HOSTSIZE, 256);
    assert_eq!(utmp_classic::USER_PROCESS, 7);
    assert_eq!(utmp_classic::UTMP, 10);
    assert_eq!(std::mem::size_of::<x32::utmp>(), 304);
}

#[test]
fn text_and_c_string_agree() {
    let bytes = field("wé".as_bytes(), 8);
    let text = string_from_bytes(&bytes).unwrap();
    let mut c = text.as_bytes().to_vec();
    c.push(0);
    assert_eq!(cstr_from_bytes(&bytes), c);
}

#[test]
fn bytes_after_terminator_do_not_matter() {
    assert_eq!(string_from_bytes(b"abc\0xyz\xff").unwrap(), string_from_bytes(b"abc\0\0\0\0\0").unwrap());
}

fn record64_be(line: &[u8], user: &[u8], host: &[u8], sec: i64, usec: i64) -> Vec<u8> {
    let mut out = field(line, 8);
    out.extend(field(user, 32));
    out.extend(field(host, 256));
    out.extend(sec.to_be_bytes());
    out.extend(usec.to_be_bytes());
    out
}

fn record32_be(line: &[u8], user: &[u8], host: &[u8], sec: i32, usec: i32) -> Vec<u8> {
    let mut out = field(line, 8);
    out.extend(field(user, 32));
    out.extend(field(host, 256));
    out.extend(sec.to_be_bytes());
    out.extend(usec.to_be_bytes());
    out
}

const X32BE: RecordFormat = RecordFormat { layout: RecordLayout::X32, order: ByteOrder::Big };
const X64BE: RecordFormat = RecordFormat { layout: RecordLayout::X64, order: ByteOrder::Big };

#[test]
fn big_endian_record64_reads_time() {
    let bytes = record64_be(b"ttyC3", b"jadi", b"", 1714663553, 0);
    assert_eq!(&bytes[296..304], &[0, 0, 0, 0, 0x66, 0x33, 0xb0, 0x81]);
    let u = x64::utmp::from_bytes(&bytes, ByteOrder::Big);
    assert_eq!((u.ut_tv.tv_sec, u.ut_tv.tv_usec), (1714663553, 0));
    let e = entry_from_record(X64BE, &bytes).unwrap();
    assert_eq!(e, entry("ttyC3", "jadi", "", 1714663553_000_000_000));
    // The same bytes read little-endian hold another, unrepresentable, time.
    assert!(matches!(entry_from_record(X64LE, &bytes), Err(UtmpError::InvalidTime(_))));
}

#[test]
fn big_endian_record32_reads_time() {
    let bytes = record32_be(b"ttyC3", b"jadi", b"", -20, 7);
    let u = x32::utmp::from_bytes(&bytes, ByteOrder::Big);
    assert_eq!((u.ut_tv.tv_sec, u.ut_tv.tv_usec), (-20, 7));
    let e = entry_from_record(X32BE, &bytes).unwrap();
    assert_eq!(e, entry("ttyC3", "jadi", "", -19_999_993_000));
}

#[test]
fn big_endian_stream_reads_like_little_endian_one() {
    let mut be = record32_be(b"tty1", b"a", b"", 100, 1);
    be.extend(record32_be(b"tty2", b"b", b"h", 200, 2));
    let mut le = record32(b"tty1", b"a", b"", 100, 1);
    le.extend(record32(b"tty2", b"b", b"h", 200, 2));
    let from_be = run(X32BE, &split(&be, 304, 5));
    let from_le = run(X32LE, &split(&le, 304, 304));
    assert_eq!(from_be.len(), 2);
    for (a, b) in from_be.iter().zip(from_le.iter()) {
        assert_eq!(a.as_ref().unwrap(), b.as_ref().unwrap());
    }
}
