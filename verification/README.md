# arglex

A small command-line argument parser whose behaviour is stated in Verus contracts and
proved.

- `src/parser.rs`: the `Parser`, its mathematical model (`ParserModel`, `next_model`,
  `take_value_model`, `take_value_opt_model`) and every reading method, each specified
  against that model.
- `src/arg.rs`: `Arg` and `Value`, the items handed out, with the text, splitting and
  typed readings of a value.
- `src/from_value.rs`: the `FromValue` trait and its verified decimal, boolean, character
  and string readers.
- `src/error.rs`: `Error`, `ErrorKind` and the error messages.
- `src/help.rs`, `src/standard.rs`: help text and the standard `-h`/`--help` and
  `-V`/`--version` answers.
- `src/laws.rs`: properties that span several calls, stated over the model and proved.
- `src/text.rs`: UTF-8 helpers, including the two calls into std that are trusted.
- `app/`: the parts that touch the operating system (process arguments, `OsString`,
  paths, stdout and stderr).
