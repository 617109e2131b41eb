# wowser

The parts of a small web browser whose behaviour can be stated and proved, written in
Verus. The functions of `src/` carry contracts that Verus proves, except the few small
functions marked `external_body` that call `std`, `regex` or `fancy-regex`: their
contracts are trusted, and their doc comments say what they claim.

- `src/image` decodes and encodes BMP images (`Bitmap::new`, `Bitmap::write`), with the
  law that writing an image and decoding the bytes gives the image back.
- `src/net/dns` builds DNS queries and reads replies, and keeps the cache that resolution
  walks (`resolve_step`, `record_response`).
- `src/net/http` reads status lines, headers and bodies (plain, sized or chunked) as a
  state machine (`ResponseReader::step`) that is fed the bytes a connection delivers.
- `src/net/url.rs` reads and prints URLs.
- `src/parse`, `src/math_parse`, `src/js` hold a regular-expression lexer, a grammar-driven
  parser and two grammars.
- `src/js/api` holds web storage (with its file format) and the beginnings of IndexedDB.

`app/` is the command line around the library: sockets, files, the async plumbing and the
floating-point walk of a tree of sums. `tests/` holds the tests.
