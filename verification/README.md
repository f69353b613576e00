# freo

Removes comments that open with a keyword (by default `FREO`) from program
text, together with whole blocks between `KEYWORD-BEGIN` and `KEYWORD-END`
marker comments. The library is written in Verus and its behaviour is stated
in contracts and proved.

Layout:

- `src/text.rs`: byte-level models of UTF-8 text: White_Space characters,
  line ends, occurrences of a needle.
- `src/pattern.rs`: case-insensitive patterns compiled and searched by the
  `regex` crate, behind trusted items.
- `src/processor.rs`: where a line's comment starts, stripping a keyword
  comment, and the line-by-line processing with blocks.
- `src/comment.rs`: the table from file extensions to comment tokens.
- `src/config.rs`: the keyword, the configured token table, and where the
  settings file is looked for.
- `src/batch.rs`: the decisions of a run over several files: prepare every
  file first, write back only once all are prepared, stop at a failure.
- `src/laws.rs`: properties of the library as a whole, proved.
- `app/`: the command-line program: argument parsing, JSON settings, reading
  files and writing them back through temporary files.
