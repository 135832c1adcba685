# facelock

The decisions of the `facelock` command line, as a library that Verus proves: how
PAM service files are found, edited and reported on; which camera is infrared; how
the daemon is stopped and given back around a destructive operation; what each
command asks, says and exits with.

- `src/` is the library. Every function has a contract over mathematical models of
  its inputs, and the laws that relate functions stand beside them as public proof
  functions whose names start with `law_`.
- `tests/` runs the library on concrete values, against files and a service manager
  held in memory.
- `app/` is ordinary Rust around the library: it reads, writes, locks, asks and
  prints. The face engine, the store of templates, the configuration and the texts
  of messages are handed to it through traits.

What the library has from other crates stands behind small wrappers, each with a
comment that names the function it calls and says what is believed of it: JSON
values (`src/json.rs`), log filters (`src/logging.rs`), the local date
(`src/pam/edit.rs`, `src/list.rs`), the size of a picture
(`src/preview/text_only.rs`), and lower case and quoting of texts (`src/text.rs`).
