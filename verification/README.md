# gitui

The logic of a terminal interface to git, written in Verus: every function in
`src/` carries a contract, which is proved of its code unless the function only
makes an outside call.

- `src/` reads diffs, shows them in one or two columns or through the program
  `delta`, stages lines, searches commits, keeps track of work in the background,
  and drives a tab and three popups. It touches no repository, terminal or other
  program: those come in and go out as plain values.
- `app/` is ordinary Rust around it: it opens repositories, runs programs and
  threads, and paints what the library says.
- `tests/` runs the library on concrete values.

What a contract takes from an outside crate is stated at the function that makes
the call, with the name of the outside function: line printing by `git2`,
matching by `fuzzy-matcher`, sizes by `bytesize`, wrapping by `bwrap`, columns by
`ratatui` and number conversions by `easy-cast`; and where `std` is asked, such as
for the last component of a path. Public functions whose names
begin with `law_` state what holds of several functions together.
