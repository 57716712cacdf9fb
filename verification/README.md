# embedded_support

Support for embedded projects (STM32 and other Cortex-M) in the Zed editor, as a
verified library and a thin editor layer.

- `src/` is the library: which projects are embedded ones, the build targets in
  `CMakePresets.json`, the contents of `.zed/tasks.json`, `.zed/debug.json` and
  `.zed/embedded.json`, the search for `probe-rs`, the state of the status bar
  buttons and the breakpoint in the main function. Every function has a contract.
  Verus proves it, but for the few wrappers around calls into other code, whose
  contracts it believes (see below). `src/laws.rs`, and the `law_` functions of the other modules,
  state what holds across functions: no file is written twice, what is written is
  read back, and the buttons and debug scenarios use the generated tasks.
- `app/` reads directories, runs the searches, writes the files and shows the
  buttons. Its file layer needs no editor; the rest is built inside the editor's
  workspace, against `gpui`, `workspace` and their companions.
- `tests/` runs the library on concrete projects.

JSON text is read and written by `serde_json`. What is believed of it, and of two
functions of the standard library, stands at `src/json_text.rs`,
`src/paths.rs` (`strip_base`) and `src/text.rs` (`String::push`).
