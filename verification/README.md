# vcam_server

The frame logic of a Windows virtual camera, written in Verus: video formats,
the shared-memory feed (its control header, state block and triple-buffered
slots), the broker's session rules, the built-in test pattern and the animated
demo frames, surface copies, bitmap encoding, registry paths and the command
line parsing of the tools.

- `src/` is the verified library. Each public function states its result in
  its `ensures`; `src/laws.rs` and `src/feed_laws.rs` hold the properties that
  relate several functions (a published frame reads back, a stopped stream
  serves no sample, a bitmap stores its rows bottom-up, and so on).
- `app/` is the Windows side: COM objects, Media Foundation, file mappings,
  named mutexes, the registry and the two command line tools. It calls the
  library for every decision and keeps only the system calls.
- `tests/` runs the library on concrete frames and arguments.

The COM and Media Foundation parts of `app/` build on Windows only.
