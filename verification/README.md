# dfwasm

A compiler from WebAssembly modules to DiamondFire code templates, written in
Verus: the compiler's logic carries `requires` / `ensures` contracts that the
verifier proves.

## Layout

- `src/` — the verified library.
  - `template.rs`, `json_block.rs`, `splitter.rs`, `codec.rs` — DiamondFire
    templates, their JSON blocks, splitting a template into pieces that fit a
    plot, and the compressed text form in which templates are exchanged.
  - `wasm.rs`, `wasm_read.rs` — a module as plain values (sections, operators)
    and the reading of module bytes into them.
  - `compiler.rs`, `sections.rs`, `operators/` — the compiler: module sections
    and each operator turned into template blocks.
  - `df_helper.rs`, `names.rs`, `text.rs` — DiamondFire names, number text
    (fixed-point values with three decimal places) and text building.
  - `sender.rs` — the decisions of the client that sends templates to the game.
  - `runner.rs`, `test_gen/` — the test runner's logic and the generator of
    its test modules.
- `app/` — the command-line program, the network client, the test runner's
  execution of modules and the file handling around them.
- `tests/` — tests of the library on concrete values.

## Design notes

- **Name sets.** Splitting templates keeps the function names already taken
  in `names::NameSet`, a list of `String`s viewed as a set of character
  sequences, instead of a `HashSet<String>`. vstd specifies `HashSet` well
  for integer keys, but with `String` keys its lookups and inserts give no
  usable facts about the set's contents, so the freshness of the names that
  splitting makes could not be proved over it. A list proves it directly.
- **Reading modules.** Module bytes are read with `wasmparser`; the reader's
  values are opaque to the verifier. What is proved of reading is which
  payloads were read and the shape of what each section holds; the compiler
  is proved exact on the sections it is given.
