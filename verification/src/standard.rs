//! The standard `-h`/`--help` and `-V`/`--version` flags and the answers to them.
use vstd::prelude::*;
use vstd::string::*;
use vstd::utf8::*;
use crate::arg::{Arg, Token};
use crate::help::{Help, help_text};

verus! {

/// One of the two standard flags.
#[derive(Debug, Clone, Copy, PartialEq, Eq, Structural)]
pub enum Flag {
    /// `-h` or `--help`.
    Help,
    /// `-V` or `--version`.
    Version,
}

/// The short form of a standard flag.
pub open spec fn flag_short(f: Flag) -> char {
    match f {
        Flag::Help => 'h',
        Flag::Version => 'V',
    }
}

/// The long form of a standard flag.
pub open spec fn flag_long(f: Flag) -> Seq<char> {
    match f {
        Flag::Help => "help"@,
        Flag::Version => "version"@,
    }
}

/// The item is the short or the long form of the flag.
pub open spec fn flag_matches(f: Flag, t: Token) -> bool {
    t == Token::Short(flag_short(f)) || t == Token::Long(flag_long(f))
}

/// The standard flag that an item is, if any; help is tried first.
pub open spec fn classify_token(t: Token) -> Option<Flag> {
    if flag_matches(Flag::Help, t) {
        Some(Flag::Help)
    } else if flag_matches(Flag::Version, t) {
        Some(Flag::Version)
    } else {
        None
    }
}

impl Flag {
    /// The short form: `h` or `V`.
    pub fn short(self) -> (r: char)
        ensures
            r == flag_short(self),
    {
        match self {
            Flag::Help => 'h',
            Flag::Version => 'V',
        }
    }

    /// The long form: `help` or `version`.
    pub fn long(self) -> (r: &'static str)
        ensures
            r@ == flag_long(self),
    {
        match self {
            Flag::Help => "help",
            Flag::Version => "version",
        }
    }

    /// Whether `arg` is this flag, in its short or long form.
    pub fn matches(self, arg: Arg) -> (r: bool)
        ensures
            r <==> flag_matches(self, arg@),
    {
        arg.matches(self.short(), self.long())
    }
}

/// Whether `arg` is `-h` or `--help`.
pub fn is_help(arg: Arg) -> (r: bool)
    ensures
        r <==> flag_matches(Flag::Help, arg@),
{
    Flag::Help.matches(arg)
}

/// Whether `arg` is `-V` or `--version`.
pub fn is_version(arg: Arg) -> (r: bool)
    ensures
        r <==> flag_matches(Flag::Version, arg@),
{
    Flag::Version.matches(arg)
}

/// The standard flag that `arg` is, if any.
pub fn classify(arg: Arg) -> (r: Option<Flag>)
    ensures
        r == classify_token(arg@),
{
    if is_help(arg) {
        Some(Flag::Help)
    } else if is_version(arg) {
        Some(Flag::Version)
    } else {
        None
    }
}

/// The text that answers a standard flag: `help` for help, `version` for version.
pub fn text<'a>(flag: Flag, help: &'a str, version: &'a str) -> (r: &'a str)
    ensures
        r@ == (match flag {
            Flag::Help => help@,
            Flag::Version => version@,
        }),
{
    match flag {
        Flag::Help => help,
        Flag::Version => version,
    }
}

/// Appends the UTF-8 bytes of the text that answers `flag` to `out`.
pub fn write(out: &mut Vec<u8>, flag: Flag, help: &str, version: &str) -> (r: Result<
    (),
    std::io::Error,
>)
    ensures
        r is Ok,
        final(out)@ == old(out)@ + encode_utf8(
            match flag {
                Flag::Help => help@,
                Flag::Version => version@,
            },
        ),
{
    let t = text(flag, help, version);
    out.extend_from_slice(t.as_bytes());
    Ok(())
}

/// The answer to an item, when it is a standard flag: the help text of `doc` for help,
/// `version` for version.
pub open spec fn response_text(t: Token, doc: (Seq<char>, Seq<(Seq<char>, Seq<char>)>), version: Seq<char>) -> Option<Seq<char>> {
    match classify_token(t) {
        Some(Flag::Help) => Some(help_text(doc)),
        Some(Flag::Version) => Some(version),
        None => None,
    }
}

/// The text that answers `arg` when it is a standard flag, as [`response_text`]
/// describes it; `None` for any other item.
pub fn response(arg: Arg, doc: Help, version: &str) -> (r: Option<String>)
    ensures
        match response_text(arg@, doc@, version@) {
            Some(t) => r matches Some(s) && s@ == t,
            None => r is None,
        },
{
    match classify(arg) {
        Some(Flag::Help) => Some(doc.render()),
        Some(Flag::Version) => Some(version.to_owned()),
        None => None,
    }
}

/// Answers `arg` when it is a standard flag: appends the UTF-8 bytes of the answer to
/// `out` and returns `true`; returns `false` and leaves `out` as it was otherwise.
pub fn try_write(out: &mut Vec<u8>, arg: Arg, doc: Help, version: &str) -> (r: Result<
    bool,
    std::io::Error,
>)
    ensures
        match response_text(arg@, doc@, version@) {
            Some(t) => r == Ok::<bool, std::io::Error>(true) && final(out)@ == old(out)@
                + encode_utf8(t),
            None => r == Ok::<bool, std::io::Error>(false) && final(out)@ == old(out)@,
        },
{
    match response(arg, doc, version) {
        Some(s) => {
            out.extend_from_slice(s.as_str().as_bytes());
            Ok(true)
        },
        None => Ok(false),
    }
}

} // verus!
