# gaia_assembler

A multi-platform assembler core with machine-checked contracts: the
functions under `src/` are verified with Verus against the contracts in
their headers. Four small wrappers marked `#[verifier::external_body]`
are trusted, not verified: `push_char` (`String::push`), `get_page_size`
(`page_size::get`), `lossy_text` (`String::from_utf8_lossy`) and
`str_debug_text` (the `{:?}` text of a string).

Layout:

- `src/ir.rs`, `src/export_adapters/`, `src/import_adapters/`: the flat
  instruction set and its conversion to and from IL, JVM, PE and WASI
  instructions, with round-trip laws.
- `src/types.rs`, `src/instruction.rs`, `src/program.rs`: the tiered
  representation (core, managed and domain instructions, modules).
- `src/backends/`: JVM lowering, intermediate-language text (`msil`), the
  CLR program model (`clr`), WebAssembly lowering (`wasi`), native x86-64
  code with call and jump patching (`x86`), the import table and the
  linking of an executable's calls and string loads (`x86_link`), the .NET
  PE image (`pe`) and the GPU kernels (`gpu`), with each backend's name,
  target and score.
- `src/assembler.rs`: the backend dispatcher: the backend whose primary
  host is the target's, else the best score above 0, else an unsupported
  target; then that backend's generator.
- `src/debug_text.rs`: the `{:?}` texts of the library's own types
  (targets, types, constants, instructions), spelled out and verified.
- `src/config.rs`, `src/adapters.rs`, `src/adapter_manager.rs`,
  `src/target_key.rs`: settings, function mappings, the adapter registry and
  targets as text.
- `src/frontend/`: the editor services of the front end (completion,
  formatting, constant folding, dead-code elimination, templates).
- `src/jit.rs`: the code buffer of the JIT, sized in whole pages.
- `app/`: what needs the operating system or floating point: configuration
  files (TOML), executable memory, float constants and float scores.
- `tests/`: the tests, run against the compiled library.
