use utmp_classic::parse::{RecordLayout, ReadEvent, RecordFormat, RecordReader, Step};
use utmp_classic::ByteOrder;
use utmp_classic::x64::utmp;
use utmp_classic::{ParseError, UtmpEntry};

const X32LE: RecordFormat = RecordFormat { layout: RecordLayout::X32, order: ByteOrder::Little };
const X64LE: RecordFormat = RecordFormat { layout: RecordLayout::X64, order: ByteOrder::Little };


fn field(text: &str, size: usize) -> Vec<u8> {
    let mut out = text.as_bytes().to_vec();
    out.resize(size, 0);
    out
}

fn record32(line: &str, user: &str, host: &str, sec: i32, usec: i32) -> Vec<u8> {
    let mut out = field(line, 8);
    out.extend(field(user, 32));
    out.extend(field(host, 256));
    out.extend(sec.to_le_bytes());
    out.extend(usec.to_le_bytes());
    out
}

/// Reads `bytes` with reads of at most `chunk` bytes, collecting entries up
/// to the first error.
fn read_all(format: RecordFormat, bytes: &[u8], chunk: usize) -> Result<Vec<UtmpEntry>, ParseError> {
    let mut pos = 0;
    let mut out = Vec::new();
    loop {
        let mut reader = RecordReader::new(format);
        let item = loop {
            let n = reader.remaining().min(chunk).min(bytes.len() - pos);
            let data = bytes[pos..pos + n].to_vec();
            pos += n;
            match reader.step(ReadEvent::Data(data)) {
                Step::ReadMore => continue,
                Step::End => break None,
                Step::Item(item) => break Some(item),
                Step::ReadFailed => unreachable!(),
            }
        };
        match item {
            None => return Ok(out),
            Some(Ok(entry)) => out.push(entry),
            Some(Err(e)) => return Err(e),
        }
    }
}

fn get_basic_expected() -> Vec<UtmpEntry> {
    vec![UtmpEntry::UTMP {
        line: "ttyC3".to_owned(),
        user: "jadi".to_owned(),
        host: "".to_owned(),
        time: 1714663553_000000_000,
    }]
}

fn basic_stream() -> Vec<u8> {
    let mut bytes = Vec::new();
    for i in 0..5 {
        bytes.extend(record32(&format!("ttyC{}", i), "", "", 1714660000 + i, 0));
    }
    bytes.extend(record32("ttyC3", "jadi", "", 1714663553, 0));
    bytes
}

#[test]
fn parse_basic32() {
    let actual = read_all(X32LE, &basic_stream(), usize::MAX).unwrap();
    let expected = get_basic_expected();
    assert_eq!(actual[5], expected[0])
}

#[test]
fn parse_basic32_one_byte_reads() {
    let whole = read_all(X32LE, &basic_stream(), usize::MAX).unwrap();
    let bytewise = read_all(X32LE, &basic_stream(), 1).unwrap();
    assert_eq!(whole.len(), 6);
    assert_eq!(whole, bytewise);
    assert_eq!(bytewise[5], get_basic_expected()[0]);
}

#[test]
fn test_size_of_utmp_x64() {
    assert_eq!(std::mem::size_of::<utmp>(), 312);
}
