# ruma_lints

A lint driver for the Rust compiler, with its decisions verified by Verus.

- `src/` is the verified library:
  - `args`: reading an option's value from a command line (`--opt=value` or `--opt value`);
  - `sysroot`: finding the sysroot, step by step, from the command line, the
    environment, `rustc --print sysroot` and the build environment;
  - `driver`: what a run does (plain `rustc`, version, help, or the lint
    driver) and with which arguments, and the compiler callbacks' decisions;
  - `utils`: lint messages and their notes, with the documentation link;
  - `use_order`: the lint that checks that imports come in groups
    (standard library, outside crates, the crate itself);
  - `config`: the lint configuration;
  - `text`: string helpers.
- `app/` is the program around it: it reads the environment, runs processes and
  hands everything to the compiler through its internal crates
  (`rustc_private`), which only a nightly toolchain provides.
- `tests/` run the library on concrete values.

Paths are joined with `/` by the rules of `PathBuf::push` on Unix.
