# open2jam

The verified core of an O2Jam-style rhythm game, written in Verus.

`src/` is the library. Its functions carry contracts that Verus proves,
except for a few trusted items that stand for outside code and whose
contracts Verus believes as written (each says in its doc comment what it
claims of that code):

- `text::decode_euc_kr` (encoding_rs's EUC-KR decoder),
  `text::decode_utf8_lossy` (`String::from_utf8_lossy`),
  `text::utf8_text` (`str::from_utf8`) and `text::to_lowercase`
  (`str::to_lowercase`);
- `xml::read_reader_events` (quick-xml's reader over a text) and
  `xml::read_tag_attributes` (quick-xml's attribute iterator);
- the specification of `<[T]>::swap` in `modifiers`, and the declaration of
  `std::io::Error` in `ojm`.

The modules:

- `bytes`, `numbers`, `text` — little-endian fields, decimal numbers as
  `FromStr` reads them, and the NUL-padded EUC-KR/UTF-8 text fields.
- `ojn` — chart files: the 300-byte header, the measure blocks of a
  difficulty section, the order of measures and the decoded note events.
- `ojm` — sample containers in their three variants (M30, OMC, OJM),
  including the block rearrangement and the XOR decryption.
- `judgment`, `game_state`, `stats` — scoring, combo, jam, pills and life.
- `modifiers` — the Mirror, Random and Panic lane modifiers.
- `input`, `key_bind` — key names and the key-capture flow of the editor.
- `skin`, `xml`, `prefab` — skin XML text read into reader events, the
  skin definitions read from them, and the per-lane note prefabs.
- `strict_skin` — the strict skin reader (required names, sizes, ids and
  rectangles), told per event whether a frame's scale and alpha read as
  numbers.
- `atlas` — which frames go into a texture atlas and their row packing.
- `trigger` — scheduling of sample triggers and which one is due next.
- `audio`, `models` — sample format detection, error types and library rows.

`app/` is a small command-line program around the library: it reads files,
times chart events in milliseconds (floating point), reads the sprites of a
skin file and the frames of the strict reader (their frames carry
floating-point scale and alpha), runs the
chart's sample triggers and a lane modifier over the chart, and prints what
it read.

`tests/` runs the library on concrete inputs.
