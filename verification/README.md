# utmp_classic

Reads classic (AT&T Unix v1 style) `utmp` login records, the format that
OpenBSD still uses. The library is written in Verus and its behaviour is
stated in contracts and proved.

- `src/x32.rs`, `src/x64.rs`: the two record layouts (32-bit and 64-bit time
  fields) and their decoding from bytes written in either byte order
  (`ByteOrder`, in `src/lib.rs`).
- `src/entry.rs`: turning a record into a checked `UtmpEntry` (texts before
  the first zero byte, UTF-8; time stamp within the years -9999 to 9999).
- `src/parse.rs`: the reading state of a stream of records, one read at a
  time, and the laws that tie the items it gives to the stream's bytes.
- `app/`: the parsers that own a `Read`er or a file (reading the target's
  own layout and byte order), the entry and error
  types with `Display` and `time::OffsetDateTime`, and the record dump tool.
