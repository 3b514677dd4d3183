# pyo3build

Support for build scripts of crates that are built against Python. The library
finds out which interpreter a build should use, reads what the interpreter prints
about itself, and composes the lines that the build script hands to Cargo. It is
written in Verus: each function states what it returns, and Verus proves it.

- `text`: numerals, lines, trimming and the order of texts
- `pattern`: the two regular expressions, searched with the `regex` crate
- `version`: Python versions, from an interpreter's answer or from Cargo features
- `config`: what is known about an interpreter
- `sysconfig`: compile-time defines that are passed on to `rustc`
- `link`, `cargo`: how the interpreter is linked, and all the lines for Cargo
- `script`: what became of a script
- `search`: the search for an interpreter, as a state machine

`app/` runs the processes, reads the environment and prints.

Public proof functions named `law_...` state what holds of several functions
together, for example that a search ends with the first program of the right
version, or that a version is read back from what an interpreter prints.

Verus takes on trust what the doc comments call trusted: `Regex::captures` of the
`regex` crate, and `char::is_whitespace`, `str::to_lowercase` and
`String::from_utf8` of the standard library.
