# gbx_header

Reader for the header of `.Gbx` files as written by TrackMania Nations Forever, with its
behaviour stated in Verus contracts and proved.

- `src/gbx/mod.rs`: the data types (`GBX`, `ReplayXMLHeader`, `MapClass`, ...), the
  case-insensitive readers of version/mood/... names, and the text rendering of values.
- `src/gbx/parser.rs`: `parse_from_buffer` / `try_parse_from_buffer`, stated by
  `spec_parse_from_buffer`, which reads the XML header both as a replay and as a challenge;
  `find_window`.
- `src/gbx/parser/replay.rs`, `src/gbx/parser/challenge.rs`: reading the XML header of a
  replay or a challenge from its XML events.
- `src/xml_stream.rs`: the XML events, as read by the `xml-rs` crate.
- `src/text.rs`: string comparison, decimal and hexadecimal rendering, and the
  standard-library text conversions used by the parser.
- `app/`: the `gbx-info` command line tool (file reading, argument handling, JSON output).
