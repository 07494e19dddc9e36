# tas

An assembler for ttvm object files, written in Verus.

The library (`src/`) reads tasm source in three passes and emits the sections of an object file:

- `lex`: source bytes to tokens (words, numbers, strings, symbols, newlines);
- `parse`: keywords, labels and addresses (`syntactic_parse`), then the declarations of each
  section and the signatures of the index (`semantic_parse`, `parse_type`);
- `emit`: the layout of labels and index entries, the configuration and data sections, the
  machine code of instructions (`instr`), and the index section.

Diagnostics are returned as `Report`s: a message, a position, and what the message is about (the
offending token, or the full name of a missing label); the program in `app/` prints them.

Each pass is specified by a spec function over the views of its input (`spec_lex`,
`spec_syntactic_parse`, `spec_semantic_parse`, `spec_emit`), and its executable code is proved to
compute exactly that, diagnostics included. Where a pass cannot go on (input that the passes
before it never produce), the `*_checked` form returns `None`.

Floating point stays out of the library: a float literal is kept as its text, and the emitted
sections hold `Piece::F64` / `Piece::F32` pieces that name the number a float is made from. The
command line program in `app/` reads the source file, prints diagnostics and debug listings,
computes the bytes of float pieces, and writes the object file.
