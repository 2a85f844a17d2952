//! The parser: it walks the raw arguments and hands out short options, long options
//! and positional values, and the values that options take.
use vstd::prelude::*;
use vstd::string::*;
use vstd::utf8::*;
use vstd::std_specs::iter::IteratorSpec;
use crate::arg::{
    Arg, Token, Value, parse_error, parses, split_parse_error, split_parses, split_text, text_of,
};
use crate::from_value::FromValue;
use crate::error::{Error, ErrorKind, ErrorModel, error_model};
use crate::text::{DASH, EQUALS, utf8_text};

verus! {

broadcast use {vstd::utf8::group_utf8_lib, vstd::std_specs::vec::axiom_spec_into_iter};

/// What is left of the argument being read, in the model.
pub enum PendingModel {
    /// Nothing: the next item starts with the next raw argument.
    Idle,
    /// The rest of a cluster of short options, from byte `offset` of argument `arg`.
    Cluster { arg: int, offset: int },
    /// A value attached with `=` to the last long option, from byte `offset` of argument `arg`.
    Attached { arg: int, offset: int },
}

/// The last item handed out, in the model.
pub enum LastModel {
    /// No item, or the last call failed or ran out of arguments.
    Nothing,
    /// An option, written `display` on the command line; `taken` once its value (or the
    /// absence of one) has been read.
    Option { display: Seq<u8>, taken: bool },
    /// The positional value that is argument `arg`.
    Positional { arg: int },
}

/// The mathematical content of a [`Parser`].
pub struct ParserModel {
    /// Every raw argument, as bytes.
    pub args: Seq<Seq<u8>>,
    /// Index of the next raw argument not yet read.
    pub pos: int,
    /// Whether `--` has been read, after which every argument is a positional value.
    pub done: bool,
    pub pending: PendingModel,
    pub last: LastModel,
}

/// The consistency of a parser model: positions lie inside the arguments, and a pending
/// cluster or attached value belongs to an option whose value has not been taken.
pub open spec fn model_wf(m: ParserModel) -> bool {
    &&& 0 <= m.pos <= m.args.len()
    &&& match m.pending {
        PendingModel::Idle => true,
        PendingModel::Cluster { arg, offset } => {
            &&& 0 <= arg < m.pos
            &&& 1 <= offset < m.args[arg].len()
            &&& m.last matches LastModel::Option { taken, .. } && !taken
        },
        PendingModel::Attached { arg, offset } => {
            &&& 0 <= arg < m.pos
            &&& 0 <= offset <= m.args[arg].len()
            &&& m.last matches LastModel::Option { taken, .. } && !taken
        },
    }
    &&& match m.last {
        LastModel::Positional { arg } => 0 <= arg < m.pos,
        _ => true,
    }
}

/// A fresh parser over `args`.
pub open spec fn initial_model(args: Seq<Seq<u8>>) -> ParserModel {
    ParserModel {
        args,
        pos: 0,
        done: false,
        pending: PendingModel::Idle,
        last: LastModel::Nothing,
    }
}

/// An argument that starts like an option: a dash followed by at least one more byte.
pub open spec fn option_like(a: Seq<u8>) -> bool {
    a.len() >= 2 && a[0] == DASH
}

/// The argument `--`, after which every argument is a positional value.
pub open spec fn is_sentinel(a: Seq<u8>) -> bool {
    a.len() == 2 && a[0] == DASH && a[1] == DASH
}

/// The byte length of the first character of `rest`: the shortest prefix, of at most four
/// bytes, that is valid UTF-8; 0 when there is none.
pub open spec fn char_width(rest: Seq<u8>) -> int {
    if rest.len() >= 1 && valid_utf8(rest.take(1)) {
        1
    } else if rest.len() >= 2 && valid_utf8(rest.take(2)) {
        2
    } else if rest.len() >= 3 && valid_utf8(rest.take(3)) {
        3
    } else if rest.len() >= 4 && valid_utf8(rest.take(4)) {
        4
    } else {
        0
    }
}

/// The first character of `rest`, when `char_width(rest) > 0`.
pub open spec fn first_char(rest: Seq<u8>) -> char {
    decode_utf8(rest.take(char_width(rest)))[0]
}

/// The argument that the last item refers to: the option as written, or the positional
/// value.
pub open spec fn last_argument(m: ParserModel) -> Option<Seq<u8>> {
    match m.last {
        LastModel::Nothing => None,
        LastModel::Option { display, .. } => Some(display),
        LastModel::Positional { arg } => Some(m.args[arg]),
    }
}

/// The error when no value can be taken for the last item.
pub open spec fn unavailable(m: ParserModel) -> ErrorModel {
    error_model(ErrorKind::ValueUnavailable, last_argument(m))
}

/// The error when the last option is given again where it may appear once.
pub open spec fn repeated(m: ParserModel) -> ErrorModel {
    error_model(ErrorKind::UnexpectedArgument, last_argument(m))
}

/// Reads the next short option of the cluster in argument `arg`, from byte `offset`.
pub open spec fn short_step(m: ParserModel, arg: int, offset: int) -> (
    Result<Option<Token>, ErrorModel>,
    ParserModel,
) {
    let a = m.args[arg];
    let rest = a.skip(offset);
    let w = char_width(rest);
    if w == 0 {
        (
            Err(error_model(ErrorKind::InvalidOptionName, Some(a))),
            ParserModel { pending: PendingModel::Idle, last: LastModel::Nothing, ..m },
        )
    } else {
        (
            Ok(Some(Token::Short(first_char(rest)))),
            ParserModel {
                pending: if offset + w < a.len() {
                    PendingModel::Cluster { arg, offset: offset + w }
                } else {
                    PendingModel::Idle
                },
                last: LastModel::Option { display: seq![DASH] + rest.take(w), taken: false },
                ..m
            },
        )
    }
}

/// Reads the long option that is the next argument: its name runs from after `--` to the
/// first `=` (or the end), and must be non-empty UTF-8; what follows `=` is its value.
pub open spec fn long_step(m: ParserModel) -> (Result<Option<Token>, ErrorModel>, ParserModel) {
    let a = m.args[m.pos];
    let e = crate::arg::first_from(a, EQUALS, 2);
    let name = a.subrange(2, e);
    if name.len() == 0 || !valid_utf8(name) {
        (
            Err(error_model(ErrorKind::InvalidOptionName, Some(a))),
            ParserModel {
                pos: m.pos + 1,
                pending: PendingModel::Idle,
                last: LastModel::Nothing,
                ..m
            },
        )
    } else {
        (
            Ok(Some(Token::Long(decode_utf8(name)))),
            ParserModel {
                pos: m.pos + 1,
                pending: if e < a.len() {
                    PendingModel::Attached { arg: m.pos, offset: e + 1 }
                } else {
                    PendingModel::Idle
                },
                last: LastModel::Option { display: a.take(e), taken: false },
                ..m
            },
        )
    }
}

/// What reading the next item gives, and the parser after it.
pub open spec fn next_model(m: ParserModel) -> (Result<Option<Token>, ErrorModel>, ParserModel) {
    match m.pending {
        PendingModel::Attached { .. } => (
            Err(error_model(ErrorKind::UnexpectedValue, last_argument(m))),
            ParserModel { pending: PendingModel::Idle, last: LastModel::Nothing, ..m },
        ),
        PendingModel::Cluster { arg, offset } => short_step(m, arg, offset),
        PendingModel::Idle => if m.pos >= m.args.len() {
            (Ok(None), ParserModel { last: LastModel::Nothing, ..m })
        } else {
            let a = m.args[m.pos];
            if m.done || !option_like(a) {
                (
                    Ok(Some(Token::Value(a))),
                    ParserModel { pos: m.pos + 1, last: LastModel::Positional { arg: m.pos }, ..m },
                )
            } else if is_sentinel(a) {
                if m.pos + 1 >= m.args.len() {
                    (
                        Ok(None),
                        ParserModel { pos: m.pos + 1, done: true, last: LastModel::Nothing, ..m },
                    )
                } else {
                    (
                        Ok(Some(Token::Value(m.args[m.pos + 1]))),
                        ParserModel {
                            pos: m.pos + 2,
                            done: true,
                            last: LastModel::Positional { arg: m.pos + 1 },
                            ..m
                        },
                    )
                }
            } else if a[1] == DASH {
                long_step(m)
            } else {
                short_step(ParserModel { pos: m.pos + 1, ..m }, m.pos, 1)
            }
        },
    }
}

/// The value of a short option attached to it, after an optional `=`.
pub open spec fn short_tail(rest: Seq<u8>) -> Seq<u8> {
    if rest.len() > 0 && rest[0] == EQUALS {
        rest.skip(1)
    } else {
        rest
    }
}

/// The parser once the value of its last option has been read, with nothing pending.
pub open spec fn value_taken(m: ParserModel, display: Seq<u8>) -> ParserModel {
    ParserModel {
        pending: PendingModel::Idle,
        last: LastModel::Option { display, taken: true },
        ..m
    }
}

/// Taking the value of the last option: the value attached with `=`, the rest of its
/// cluster (after an optional `=`), or else the next raw argument, whatever it looks like.
/// Fails, leaving the parser as it was, with `MissingValue` when no argument is left and
/// with `ValueUnavailable` when the last item is not an option whose value is still unread.
pub open spec fn take_value_model(m: ParserModel) -> (Result<Seq<u8>, ErrorModel>, ParserModel) {
    match m.last {
        LastModel::Option { display, taken } => if taken {
            (Err(unavailable(m)), m)
        } else {
            match m.pending {
                PendingModel::Attached { arg, offset } => (
                    Ok(m.args[arg].skip(offset)),
                    value_taken(m, display),
                ),
                PendingModel::Cluster { arg, offset } => (
                    Ok(short_tail(m.args[arg].skip(offset))),
                    value_taken(m, display),
                ),
                PendingModel::Idle => if m.pos < m.args.len() {
                    (Ok(m.args[m.pos]), ParserModel { pos: m.pos + 1, ..value_taken(m, display) })
                } else {
                    (Err(error_model(ErrorKind::MissingValue, Some(display))), m)
                },
            }
        },
        _ => (Err(unavailable(m)), m),
    }
}

/// Taking the optional value of the last option: the value attached with `=`, the rest of
/// its cluster, or the next raw argument when it does not look like an option (any
/// argument, after `--`); `None` otherwise, leaving that argument unread. Fails, leaving
/// the parser as it was, with `ValueUnavailable` when the last item is not an option whose
/// value is still unread.
pub open spec fn take_value_opt_model(m: ParserModel) -> (
    Result<Option<Seq<u8>>, ErrorModel>,
    ParserModel,
) {
    match m.last {
        LastModel::Option { display, taken } => if taken {
            (Err(unavailable(m)), m)
        } else {
            match m.pending {
                PendingModel::Attached { arg, offset } => (
                    Ok(Some(m.args[arg].skip(offset))),
                    value_taken(m, display),
                ),
                PendingModel::Cluster { arg, offset } => (
                    Ok(Some(short_tail(m.args[arg].skip(offset)))),
                    value_taken(m, display),
                ),
                PendingModel::Idle => if m.pos < m.args.len() && (m.done || !option_like(
                    m.args[m.pos],
                )) {
                    (
                        Ok(Some(m.args[m.pos])),
                        ParserModel { pos: m.pos + 1, ..value_taken(m, display) },
                    )
                } else {
                    (Ok(None), value_taken(m, display))
                },
            }
        },
        _ => (Err(unavailable(m)), m),
    }
}

/// The arguments not yet read: the rest of a cluster (as `-` and its remaining options),
/// or a value attached with `=` that was not read, then every raw argument not yet read.
pub open spec fn remaining_model(m: ParserModel) -> Seq<Seq<u8>> {
    let head: Seq<Seq<u8>> = match m.pending {
        PendingModel::Idle => seq![],
        PendingModel::Cluster { arg, offset } => seq![seq![DASH] + m.args[arg].skip(offset)],
        PendingModel::Attached { arg, offset } => seq![m.args[arg].skip(offset)],
    };
    head + m.args.skip(m.pos)
}

/// `r` failed with the error `m`.
pub open spec fn fails_with<T>(r: Result<T, Error>, m: ErrorModel) -> bool {
    r matches Err(e) && e@ == m
}

/// `r` is what reading the raw value `raw` as a `T` gives.
pub open spec fn parse_agrees<T: FromValue>(r: Result<T, Error>, raw: Seq<u8>) -> bool {
    if parses::<T>(raw) {
        r matches Ok(v) && T::denotes(decode_utf8(raw), v)
    } else {
        fails_with(r, parse_error(raw))
    }
}

/// The outcome of taking a value agrees with the model's outcome.
pub open spec fn value_agrees<'a>(r: Result<Value<'a>, Error>, o: Result<Seq<u8>, ErrorModel>) -> bool {
    match o {
        Ok(b) => r matches Ok(v) && v@ == b,
        Err(e) => r matches Err(x) && x@ == e,
    }
}

/// The outcome of taking an optional value agrees with the model's outcome.
pub open spec fn value_opt_agrees<'a>(
    r: Result<Option<Value<'a>>, Error>,
    o: Result<Option<Seq<u8>>, ErrorModel>,
) -> bool {
    match o {
        Ok(None) => r matches Ok(None),
        Ok(Some(b)) => r matches Ok(Some(v)) && v@ == b,
        Err(e) => r matches Err(x) && x@ == e,
    }
}

/// The outcome of reading an item agrees with the model's outcome.
pub open spec fn item_agrees<'a>(
    r: Result<Option<Arg<'a>>, Error>,
    o: Result<Option<Token>, ErrorModel>,
) -> bool {
    match o {
        Ok(None) => r matches Ok(None),
        Ok(Some(t)) => r matches Ok(Some(a)) && a@ == t,
        Err(e) => r matches Err(x) && x@ == e,
    }
}

enum Pending {
    Idle,
    Cluster { arg: usize, offset: usize },
    Attached { arg: usize, offset: usize },
}

enum Last {
    Nothing,
    Option { display: Vec<u8>, taken: bool },
    Positional { arg: usize },
}

spec fn pending_model(p: Pending) -> PendingModel {
    match p {
        Pending::Idle => PendingModel::Idle,
        Pending::Cluster { arg, offset } => PendingModel::Cluster {
            arg: arg as int,
            offset: offset as int,
        },
        Pending::Attached { arg, offset } => PendingModel::Attached {
            arg: arg as int,
            offset: offset as int,
        },
    }
}

spec fn last_model(l: Last) -> LastModel {
    match l {
        Last::Nothing => LastModel::Nothing,
        Last::Option { display, taken } => LastModel::Option { display: display@, taken },
        Last::Positional { arg } => LastModel::Positional { arg: arg as int },
    }
}

/// A parser over a fixed list of raw arguments.
pub struct Parser {
    args: Vec<Vec<u8>>,
    pos: usize,
    done: bool,
    pending: Pending,
    last: Last,
}

impl View for Parser {
    type V = ParserModel;

    closed spec fn view(&self) -> ParserModel {
        ParserModel {
            args: self.args@.map_values(|a: Vec<u8>| a@),
            pos: self.pos as int,
            done: self.done,
            pending: pending_model(self.pending),
            last: last_model(self.last),
        }
    }
}

/// The byte length and the character at the start of `rest`, as [`char_width`] and
/// [`first_char`] describe them.
fn leading_char(rest: &[u8]) -> (r: Option<(char, usize)>)
    ensures
        match r {
            Some((c, w)) => w == char_width(rest@) && w > 0 && c == first_char(rest@),
            None => char_width(rest@) == 0,
        },
{
    let mut k: usize = 1;
    while k <= 4 && k <= rest.len()
        invariant
            1 <= k <= 5,
            forall|j: int| 1 <= j < k && j <= rest@.len() ==> !valid_utf8(#[trigger] rest@.take(j)),
        decreases 5 - k,
    {
        let prefix = vstd::slice::slice_subrange(rest, 0, k);
        if let Some(s) = utf8_text(prefix) {
            proof {
                assert(prefix@ =~= rest@.take(k as int));
                if s@.len() == 0 {
                    assert(s@ =~= Seq::<char>::empty());
                    assert(encode_utf8(s@) =~= Seq::<u8>::empty());
                }
            }
            let c = s.get_char(0);
            return Some((c, k));
        }
        proof {
            assert(prefix@ =~= rest@.take(k as int));
        }
        k = k + 1;
    }
    None
}

/// The index of the first byte `x` in `s` at or after `from`, or `s.len()`.
fn find_byte(s: &[u8], x: u8, from: usize) -> (r: usize)
    requires
        from <= s@.len(),
    ensures
        r == crate::arg::first_from(s@, x, from as int),
        from <= r <= s@.len(),
{
    let mut i = from;
    while i < s.len()
        invariant
            from <= i <= s@.len(),
            crate::arg::first_from(s@, x, from as int) == crate::arg::first_from(s@, x, i as int),
        decreases s@.len() - i,
    {
        if s[i] == x {
            return i;
        }
        i = i + 1;
    }
    i
}

impl Parser {
    /// The parser's invariant.
    pub open spec fn wf(&self) -> bool {
        model_wf(self@)
    }

    proof fn lemma_args(&self, i: int)
        requires
            0 <= i < self.args@.len(),
        ensures
            self@.args.len() == self.args@.len(),
            self@.args[i] == self.args@[i]@,
    {
    }

    /// A parser over the given raw arguments.
    pub fn new(args: Vec<Vec<u8>>) -> (p: Parser)
        ensures
            p.wf(),
            p@ == initial_model(args@.map_values(|a: Vec<u8>| a@)),
    {
        Parser { args, pos: 0, done: false, pending: Pending::Idle, last: Last::Nothing }
    }

    /// The argument that the last item refers to, as [`last_argument`] describes it.
    fn last_argument(&self) -> (r: Option<Vec<u8>>)
        requires
            self.wf(),
        ensures
            match last_argument(self@) {
                Some(b) => r matches Some(v) && v@ == b,
                None => r is None,
            },
    {
        match &self.last {
            Last::Nothing => None,
            Last::Option { display, .. } => Some(vstd::slice::slice_to_vec(display.as_slice())),
            Last::Positional { arg } => {
                proof {
                    self.lemma_args(*arg as int);
                }
                Some(vstd::slice::slice_to_vec(self.args[*arg].as_slice()))
            },
        }
    }

    fn short_step(&mut self, arg: usize, offset: usize) -> (r: Result<Option<Arg<'_>>, Error>)
        requires
            0 <= old(self)@.pos <= old(self)@.args.len(),
            arg < old(self)@.pos,
            1 <= offset < old(self)@.args[arg as int].len(),
        ensures
            final(self).wf(),
            final(self)@ == short_step(old(self)@, arg as int, offset as int).1,
            item_agrees(r, short_step(old(self)@, arg as int, offset as int).0),
    {
        proof {
            self.lemma_args(arg as int);
        }
        let a = self.args[arg].as_slice();
        let rest = vstd::slice::slice_subrange(a, offset, a.len());
        match leading_char(rest) {
            None => {
                let e = Error::with_argument(ErrorKind::InvalidOptionName, vstd::slice::slice_to_vec(a));
                self.pending = Pending::Idle;
                self.last = Last::Nothing;
                Err(e)
            },
            Some((c, w)) => {
                let mut display = vec![DASH];
                display.extend_from_slice(vstd::slice::slice_subrange(rest, 0, w));
                proof {
                    assert(rest@ =~= a@.skip(offset as int));
                    assert(display@ =~= seq![DASH] + rest@.take(w as int));
                }
                if offset + w < a.len() {
                    self.pending = Pending::Cluster { arg, offset: offset + w };
                } else {
                    self.pending = Pending::Idle;
                }
                self.last = Last::Option { display, taken: false };
                Ok(Some(Arg::Short(c)))
            },
        }
    }

    fn long_step(&mut self) -> (r: Result<Option<Arg<'_>>, Error>)
        requires
            old(self).wf(),
            old(self)@.pending is Idle,
            old(self)@.pos < old(self)@.args.len(),
            option_like(old(self)@.args[old(self)@.pos]),
        ensures
            final(self).wf(),
            final(self)@ == long_step(old(self)@).1,
            item_agrees(r, long_step(old(self)@).0),
    {
        let i = self.pos;
        let n_args = self.args.len();
        proof {
            self.lemma_args(i as int);
            assert(i < n_args);
        }
        let a = self.args[i].as_slice();
        let e = find_byte(a, EQUALS, 2);
        let name_bytes = vstd::slice::slice_subrange(a, 2, e);
        let name = utf8_text(name_bytes);
        if e > 2 && name.is_some() {
            let name = name.unwrap();
            let display = vstd::slice::slice_to_vec(vstd::slice::slice_subrange(a, 0, e));
            proof {
                assert(display@ =~= a@.take(e as int));
            }
            self.pos = i + 1;
            if e < a.len() {
                self.pending = Pending::Attached { arg: i, offset: e + 1 };
            } else {
                self.pending = Pending::Idle;
            }
            self.last = Last::Option { display, taken: false };
            Ok(Some(Arg::Long(name)))
        } else {
            let err = Error::with_argument(ErrorKind::InvalidOptionName, vstd::slice::slice_to_vec(a));
            self.pos = i + 1;
            self.pending = Pending::Idle;
            self.last = Last::Nothing;
            Err(err)
        }
    }

    /// The error for an option given again where it may appear once.
    fn repeated_error(&self) -> (e: Error)
        requires
            self.wf(),
        ensures
            e@ == repeated(self@),
    {
        Error::with_optional_argument(ErrorKind::UnexpectedArgument, self.last_argument())
    }

    /// Records that the value of the last option has been read; nothing stays pending.
    fn take_last(&mut self)
        requires
            old(self).wf(),
            old(self)@.last is Option,
        ensures
            final(self)@ == value_taken(old(self)@, old(self)@.last->display),
    {
        let mut last = Last::Nothing;
        std::mem::swap(&mut last, &mut self.last);
        match last {
            Last::Option { display, .. } => {
                self.last = Last::Option { display, taken: true };
            },
            other => {
                self.last = other;
            },
        }
        self.pending = Pending::Idle;
    }

    /// Takes the value of the last option, as [`take_value_model`] describes.
    pub fn value(&mut self) -> (r: Result<Value<'_>, Error>)
        requires
            old(self).wf(),
        ensures
            final(self).wf(),
            final(self)@ == take_value_model(old(self)@).1,
            value_agrees(r, take_value_model(old(self)@).0),
    {
        let open = match &self.last {
            Last::Option { taken, .. } => !*taken,
            _ => false,
        };
        if !open {
            return Err(Error::with_optional_argument(ErrorKind::ValueUnavailable, self.last_argument()));
        }
        let n_args = self.args.len();
        match self.pending {
            Pending::Attached { arg, offset } => {
                proof {
                    self.lemma_args(arg as int);
                }
                self.take_last();
                let a = self.args[arg].as_slice();
                Ok(Value::from_raw(vstd::slice::slice_subrange(a, offset, a.len())))
            },
            Pending::Cluster { arg, offset } => {
                proof {
                    self.lemma_args(arg as int);
                }
                let alen = self.args[arg].len();
                assert(offset < alen);
                let start = if self.args[arg][offset] == EQUALS {
                    offset + 1
                } else {
                    offset
                };
                self.take_last();
                let a = self.args[arg].as_slice();
                let v = vstd::slice::slice_subrange(a, start, a.len());
                proof {
                    let rest = a@.skip(offset as int);
                    assert(v@ =~= short_tail(rest));
                }
                Ok(Value::from_raw(v))
            },
            Pending::Idle => {
                if self.pos < n_args {
                    let i = self.pos;
                    proof {
                        self.lemma_args(i as int);
                    }
                    self.take_last();
                    self.pos = i + 1;
                    Ok(Value::from_raw(self.args[i].as_slice()))
                } else {
                    Err(Error::with_optional_argument(ErrorKind::MissingValue, self.last_argument()))
                }
            },
        }
    }

    /// Takes the optional value of the last option, as [`take_value_opt_model`] describes.
    pub fn value_opt(&mut self) -> (r: Result<Option<Value<'_>>, Error>)
        requires
            old(self).wf(),
        ensures
            final(self).wf(),
            final(self)@ == take_value_opt_model(old(self)@).1,
            value_opt_agrees(r, take_value_opt_model(old(self)@).0),
    {
        let open = match &self.last {
            Last::Option { taken, .. } => !*taken,
            _ => false,
        };
        if !open {
            return Err(Error::with_optional_argument(ErrorKind::ValueUnavailable, self.last_argument()));
        }
        let n_args = self.args.len();
        match self.pending {
            Pending::Attached { arg, offset } => {
                proof {
                    self.lemma_args(arg as int);
                }
                self.take_last();
                let a = self.args[arg].as_slice();
                Ok(Some(Value::from_raw(vstd::slice::slice_subrange(a, offset, a.len()))))
            },
            Pending::Cluster { arg, offset } => {
                proof {
                    self.lemma_args(arg as int);
                }
                let alen = self.args[arg].len();
                assert(offset < alen);
                let start = if self.args[arg][offset] == EQUALS {
                    offset + 1
                } else {
                    offset
                };
                self.take_last();
                let a = self.args[arg].as_slice();
                let v = vstd::slice::slice_subrange(a, start, a.len());
                proof {
                    let rest = a@.skip(offset as int);
                    assert(v@ =~= short_tail(rest));
                }
                Ok(Some(Value::from_raw(v)))
            },
            Pending::Idle => {
                if self.pos < n_args {
                    let i = self.pos;
                    proof {
                        self.lemma_args(i as int);
                    }
                    let n = self.args[i].len();
                    let takes = self.done || !(n >= 2 && self.args[i][0] == DASH);
                    self.take_last();
                    if takes {
                        self.pos = i + 1;
                        Ok(Some(Value::from_raw(self.args[i].as_slice())))
                    } else {
                        Ok(None)
                    }
                } else {
                    self.take_last();
                    Ok(None)
                }
            },
        }
    }

    /// Reads the next item: the next short option of a cluster such as `-abc`, a long
    /// option such as `--name` or `--name=value`, or a positional value; `None` when the
    /// arguments are exhausted. After `--`, every argument is a positional value.
    pub fn next(&mut self) -> (r: Result<Option<Arg<'_>>, Error>)
        requires
            old(self).wf(),
        ensures
            final(self).wf(),
            final(self)@ == next_model(old(self)@).1,
            item_agrees(r, next_model(old(self)@).0),
    {
        match self.pending {
            Pending::Attached { .. } => {
                let argument = self.last_argument();
                self.pending = Pending::Idle;
                self.last = Last::Nothing;
                return Err(Error::with_optional_argument(ErrorKind::UnexpectedValue, argument));
            },
            Pending::Cluster { arg, offset } => {
                return self.short_step(arg, offset);
            },
            Pending::Idle => {},
        }
        if self.pos >= self.args.len() {
            self.last = Last::Nothing;
            return Ok(None);
        }
        let i = self.pos;
        proof {
            self.lemma_args(i as int);
        }
        let n = self.args[i].len();
        let first_dash = n >= 1 && self.args[i][0] == DASH;
        let second_dash = n >= 2 && self.args[i][1] == DASH;
        if self.done || !(n >= 2 && first_dash) {
            self.pos = i + 1;
            self.last = Last::Positional { arg: i };
            return Ok(Some(Arg::Value(Value::from_raw(self.args[i].as_slice()))));
        }
        if n == 2 && second_dash {
            self.done = true;
            self.pos = i + 1;
            if i + 1 >= self.args.len() {
                self.last = Last::Nothing;
                return Ok(None);
            }
            proof {
                self.lemma_args(i + 1);
            }
            self.pos = i + 2;
            self.last = Last::Positional { arg: i + 1 };
            return Ok(Some(Arg::Value(Value::from_raw(self.args[i + 1].as_slice()))));
        }
        if second_dash {
            return self.long_step();
        }
        self.pos = i + 1;
        self.short_step(i, 1)
    }

    /// Takes the value of the last option and reads it as a `T`. The value is consumed
    /// even when reading it fails.
    pub fn parse<T: FromValue>(&mut self) -> (r: Result<T, Error>)
        requires
            old(self).wf(),
        ensures
            final(self).wf(),
            final(self)@ == take_value_model(old(self)@).1,
            match take_value_model(old(self)@).0 {
                Ok(raw) => parse_agrees(r, raw),
                Err(m) => fails_with(r, m),
            },
    {
        let v = self.value()?;
        v.parse::<T>()
    }

    /// Takes the optional value of the last option and reads it as a `T`.
    pub fn parse_opt<T: FromValue>(&mut self) -> (r: Result<Option<T>, Error>)
        requires
            old(self).wf(),
        ensures
            final(self).wf(),
            final(self)@ == take_value_opt_model(old(self)@).1,
            match take_value_opt_model(old(self)@).0 {
                Ok(None) => r matches Ok(None),
                Ok(Some(raw)) => if parses::<T>(raw) {
                    r matches Ok(Some(v)) && T::denotes(decode_utf8(raw), v)
                } else {
                    fails_with(r, parse_error(raw))
                },
                Err(m) => fails_with(r, m),
            },
    {
        match self.value_opt()? {
            Some(v) => {
                let t = v.parse::<T>()?;
                Ok(Some(t))
            },
            None => Ok(None),
        }
    }

    /// Takes the optional value of the last option and reads it as a `T`; `default` when
    /// there is none.
    pub fn parse_opt_or<T: FromValue>(&mut self, default: T) -> (r: Result<T, Error>)
        requires
            old(self).wf(),
        ensures
            final(self).wf(),
            final(self)@ == take_value_opt_model(old(self)@).1,
            match take_value_opt_model(old(self)@).0 {
                Ok(None) => r matches Ok(v) && v == default,
                Ok(Some(raw)) => parse_agrees(r, raw),
                Err(m) => fails_with(r, m),
            },
    {
        match self.value_opt()? {
            Some(v) => v.parse::<T>(),
            None => Ok(default),
        }
    }

    /// Takes the optional value of the last option and reads it as a `T`; `T::default()`
    /// when there is none.
    pub fn parse_opt_or_default<T: FromValue + Default>(&mut self) -> (r: Result<T, Error>)
        requires
            old(self).wf(),
        ensures
            final(self).wf(),
            final(self)@ == take_value_opt_model(old(self)@).1,
            match take_value_opt_model(old(self)@).0 {
                Ok(None) => r matches Ok(v) && call_ensures(T::default, (), v),
                Ok(Some(raw)) => parse_agrees(r, raw),
                Err(m) => fails_with(r, m),
            },
    {
        match self.value_opt()? {
            Some(v) => v.parse::<T>(),
            None => Ok(T::default()),
        }
    }

    /// Takes the value of the last option as text.
    pub fn string(&mut self) -> (r: Result<&str, Error>)
        requires
            old(self).wf(),
        ensures
            final(self).wf(),
            final(self)@ == take_value_model(old(self)@).1,
            match take_value_model(old(self)@).0 {
                Ok(raw) => match text_of(raw) {
                    Ok(t) => r matches Ok(s) && s@ == t,
                    Err(m) => fails_with(r, m),
                },
                Err(m) => fails_with(r, m),
            },
    {
        let v = self.value()?;
        v.to_str()
    }

    /// Takes the value of the last option as an owned string.
    pub fn string_owned(&mut self) -> (r: Result<String, Error>)
        requires
            old(self).wf(),
        ensures
            final(self).wf(),
            final(self)@ == take_value_model(old(self)@).1,
            match take_value_model(old(self)@).0 {
                Ok(raw) => match text_of(raw) {
                    Ok(t) => r matches Ok(s) && s@ == t,
                    Err(m) => fails_with(r, m),
                },
                Err(m) => fails_with(r, m),
            },
    {
        let v = self.value()?;
        v.to_owned_string()
    }

    /// Takes the optional value of the last option as text.
    pub fn string_opt(&mut self) -> (r: Result<Option<&str>, Error>)
        requires
            old(self).wf(),
        ensures
            final(self).wf(),
            final(self)@ == take_value_opt_model(old(self)@).1,
            match take_value_opt_model(old(self)@).0 {
                Ok(None) => r matches Ok(None),
                Ok(Some(raw)) => match text_of(raw) {
                    Ok(t) => r matches Ok(Some(s)) && s@ == t,
                    Err(m) => fails_with(r, m),
                },
                Err(m) => fails_with(r, m),
            },
    {
        match self.value_opt()? {
            Some(v) => {
                let s = v.to_str()?;
                Ok(Some(s))
            },
            None => Ok(None),
        }
    }

    /// Takes the optional value of the last option as an owned string.
    pub fn string_opt_owned(&mut self) -> (r: Result<Option<String>, Error>)
        requires
            old(self).wf(),
        ensures
            final(self).wf(),
            final(self)@ == take_value_opt_model(old(self)@).1,
            match take_value_opt_model(old(self)@).0 {
                Ok(None) => r matches Ok(None),
                Ok(Some(raw)) => match text_of(raw) {
                    Ok(t) => r matches Ok(Some(s)) && s@ == t,
                    Err(m) => fails_with(r, m),
                },
                Err(m) => fails_with(r, m),
            },
    {
        match self.value_opt()? {
            Some(v) => {
                let s = v.to_owned_string()?;
                Ok(Some(s))
            },
            None => Ok(None),
        }
    }

    /// Takes the optional value of the last option as an owned string; `default` when
    /// there is none.
    pub fn string_opt_or(&mut self, default: String) -> (r: Result<String, Error>)
        requires
            old(self).wf(),
        ensures
            final(self).wf(),
            final(self)@ == take_value_opt_model(old(self)@).1,
            match take_value_opt_model(old(self)@).0 {
                Ok(None) => r matches Ok(s) && s@ == default@,
                Ok(Some(raw)) => match text_of(raw) {
                    Ok(t) => r matches Ok(s) && s@ == t,
                    Err(m) => fails_with(r, m),
                },
                Err(m) => fails_with(r, m),
            },
    {
        match self.value_opt()? {
            Some(v) => v.to_owned_string(),
            None => Ok(default),
        }
    }

    /// Takes the optional value of the last option as an owned string; the empty string
    /// when there is none.
    pub fn string_opt_or_default(&mut self) -> (r: Result<String, Error>)
        requires
            old(self).wf(),
        ensures
            final(self).wf(),
            final(self)@ == take_value_opt_model(old(self)@).1,
            match take_value_opt_model(old(self)@).0 {
                Ok(None) => r matches Ok(s) && s@ == Seq::<char>::empty(),
                Ok(Some(raw)) => match text_of(raw) {
                    Ok(t) => r matches Ok(s) && s@ == t,
                    Err(m) => fails_with(r, m),
                },
                Err(m) => fails_with(r, m),
            },
    {
        self.string_opt_or(String::new())
    }

    /// Takes the value of the last option as raw bytes.
    pub fn os_string(&mut self) -> (r: Result<Vec<u8>, Error>)
        requires
            old(self).wf(),
        ensures
            final(self).wf(),
            final(self)@ == take_value_model(old(self)@).1,
            match take_value_model(old(self)@).0 {
                Ok(raw) => r matches Ok(b) && b@ == raw,
                Err(m) => fails_with(r, m),
            },
    {
        let v = self.value()?;
        Ok(v.to_os_string())
    }

    /// Takes the optional value of the last option as raw bytes.
    pub fn os_string_opt(&mut self) -> (r: Result<Option<Vec<u8>>, Error>)
        requires
            old(self).wf(),
        ensures
            final(self).wf(),
            final(self)@ == take_value_opt_model(old(self)@).1,
            match take_value_opt_model(old(self)@).0 {
                Ok(None) => r matches Ok(None),
                Ok(Some(raw)) => r matches Ok(Some(b)) && b@ == raw,
                Err(m) => fails_with(r, m),
            },
    {
        match self.value_opt()? {
            Some(v) => Ok(Some(v.to_os_string())),
            None => Ok(None),
        }
    }

    /// Takes the optional value of the last option as raw bytes; `default` when there is
    /// none.
    pub fn os_string_opt_or(&mut self, default: Vec<u8>) -> (r: Result<Vec<u8>, Error>)
        requires
            old(self).wf(),
        ensures
            final(self).wf(),
            final(self)@ == take_value_opt_model(old(self)@).1,
            match take_value_opt_model(old(self)@).0 {
                Ok(None) => r matches Ok(b) && b@ == default@,
                Ok(Some(raw)) => r matches Ok(b) && b@ == raw,
                Err(m) => fails_with(r, m),
            },
    {
        match self.value_opt()? {
            Some(v) => Ok(v.to_os_string()),
            None => Ok(default),
        }
    }

    /// Takes the optional value of the last option as raw bytes; empty when there is none.
    pub fn os_string_opt_or_default(&mut self) -> (r: Result<Vec<u8>, Error>)
        requires
            old(self).wf(),
        ensures
            final(self).wf(),
            final(self)@ == take_value_opt_model(old(self)@).1,
            match take_value_opt_model(old(self)@).0 {
                Ok(None) => r matches Ok(b) && b@ == Seq::<u8>::empty(),
                Ok(Some(raw)) => r matches Ok(b) && b@ == raw,
                Err(m) => fails_with(r, m),
            },
    {
        self.os_string_opt_or(Vec::new())
    }

    /// Takes the value of the last option and splits it at the first `sep` into a
    /// non-empty key and a value, as owned strings.
    pub fn split_once_nonempty_key_owned(&mut self, sep: char) -> (r: Result<(String, String), Error>)
        requires
            old(self).wf(),
        ensures
            final(self).wf(),
            final(self)@ == take_value_model(old(self)@).1,
            match take_value_model(old(self)@).0 {
                Ok(raw) => match split_text(raw, sep, true) {
                    Ok(q) => r matches Ok(p) && p.0@ == q.0 && p.1@ == q.1,
                    Err(m) => fails_with(r, m),
                },
                Err(m) => fails_with(r, m),
            },
    {
        let v = self.value()?;
        v.split_once_nonempty_key_owned(sep)
    }

    /// Takes the value of the last option, splits it at the first `sep` into a non-empty
    /// key and a part read as a `T`.
    pub fn split_once_nonempty_key_parse<T: FromValue>(&mut self, sep: char) -> (r: Result<
        (&str, T),
        Error,
    >)
        requires
            old(self).wf(),
        ensures
            final(self).wf(),
            final(self)@ == take_value_model(old(self)@).1,
            match take_value_model(old(self)@).0 {
                Ok(raw) => if split_parses::<T>(raw, sep, true) {
                    r matches Ok(p) && (split_text(raw, sep, true) matches Ok(q) && q.0 == p.0@
                        && T::denotes(q.1, p.1))
                } else {
                    fails_with(r, split_parse_error(raw, sep, true))
                },
                Err(m) => fails_with(r, m),
            },
    {
        let v = self.value()?;
        v.split_once_nonempty_key_parse::<T>(sep)
    }

    /// Sets a flag that may be given once. Fails with `UnexpectedArgument` (naming the
    /// last option) when the flag is already set. The parser is left as it was.
    pub fn store_flag(&mut self, flag: &mut bool) -> (r: Result<(), Error>)
        requires
            old(self).wf(),
        ensures
            final(self).wf(),
            final(self)@ == old(self)@,
            *final(flag),
            *old(flag) ==> fails_with(r, repeated(old(self)@)),
            !*old(flag) ==> r is Ok,
    {
        if *flag {
            return Err(self.repeated_error());
        }
        *flag = true;
        Ok(())
    }

    /// Stores the value of the last option as raw bytes in an empty slot. When the slot is
    /// already filled, fails with `UnexpectedArgument` (naming the last option) and reads
    /// nothing; on failure the slot is left as it was.
    pub fn store_os_string(&mut self, slot: &mut Option<Vec<u8>>) -> (r: Result<(), Error>)
        requires
            old(self).wf(),
        ensures
            final(self).wf(),
            match *old(slot) {
                Some(_) => fails_with(r, repeated(old(self)@)) && final(self)@ == old(self)@
                    && *final(slot) == *old(slot),
                None => final(self)@ == take_value_model(old(self)@).1 && match take_value_model(
                    old(self)@,
                ).0 {
                    Ok(raw) => *final(slot) matches Some(b) && b@ == raw && r is Ok,
                    Err(m) => fails_with(r, m) && *final(slot) is None,
                },
            },
    {
        if slot.is_some() {
            return Err(self.repeated_error());
        }
        let v = self.value()?;
        v.store_os_string(slot)
    }

    /// Stores the value of the last option as text in an empty slot. When the slot is
    /// already filled, fails with `UnexpectedArgument` (naming the last option) and reads
    /// nothing; on failure the slot is left as it was.
    pub fn store_string(&mut self, slot: &mut Option<String>) -> (r: Result<(), Error>)
        requires
            old(self).wf(),
        ensures
            final(self).wf(),
            match *old(slot) {
                Some(_) => fails_with(r, repeated(old(self)@)) && final(self)@ == old(self)@
                    && *final(slot) == *old(slot),
                None => final(self)@ == take_value_model(old(self)@).1 && match take_value_model(
                    old(self)@,
                ).0 {
                    Ok(raw) => match text_of(raw) {
                        Ok(t) => *final(slot) matches Some(s) && s@ == t && r is Ok,
                        Err(m) => fails_with(r, m) && *final(slot) is None,
                    },
                    Err(m) => fails_with(r, m) && *final(slot) is None,
                },
            },
    {
        if slot.is_some() {
            return Err(self.repeated_error());
        }
        let v = self.value()?;
        v.store_string(slot)
    }

    /// Stores the value of the last option read as a `T` in an empty slot. When the slot is
    /// already filled, fails with `UnexpectedArgument` (naming the last option) and reads
    /// nothing; on failure the slot is left as it was.
    pub fn store_parse<T: FromValue>(&mut self, slot: &mut Option<T>) -> (r: Result<(), Error>)
        requires
            old(self).wf(),
        ensures
            final(self).wf(),
            match *old(slot) {
                Some(_) => fails_with(r, repeated(old(self)@)) && final(self)@ == old(self)@
                    && *final(slot) == *old(slot),
                None => final(self)@ == take_value_model(old(self)@).1 && match take_value_model(
                    old(self)@,
                ).0 {
                    Ok(raw) => if parses::<T>(raw) {
                        *final(slot) matches Some(v) && T::denotes(decode_utf8(raw), v) && r is Ok
                    } else {
                        fails_with(r, parse_error(raw)) && *final(slot) is None
                    },
                    Err(m) => fails_with(r, m) && *final(slot) is None,
                },
            },
    {
        if slot.is_some() {
            return Err(self.repeated_error());
        }
        let v = self.value()?;
        v.store_parse::<T>(slot)
    }

    /// Stores the value of the last option, split at the first `sep` into a non-empty key
    /// and a value, in an empty slot. When the slot is already filled, fails with
    /// `UnexpectedArgument` (naming the last option) and reads nothing; on failure the slot
    /// is left as it was.
    pub fn store_split_once_nonempty_key_owned(
        &mut self,
        sep: char,
        slot: &mut Option<(String, String)>,
    ) -> (r: Result<(), Error>)
        requires
            old(self).wf(),
        ensures
            final(self).wf(),
            match *old(slot) {
                Some(_) => fails_with(r, repeated(old(self)@)) && final(self)@ == old(self)@
                    && *final(slot) == *old(slot),
                None => final(self)@ == take_value_model(old(self)@).1 && match take_value_model(
                    old(self)@,
                ).0 {
                    Ok(raw) => match split_text(raw, sep, true) {
                        Ok(q) => *final(slot) matches Some(p) && p.0@ == q.0 && p.1@ == q.1 && r is Ok,
                        Err(m) => fails_with(r, m) && *final(slot) is None,
                    },
                    Err(m) => fails_with(r, m) && *final(slot) is None,
                },
            },
    {
        if slot.is_some() {
            return Err(self.repeated_error());
        }
        let v = self.value()?;
        v.store_split_once_nonempty_key_owned(sep, slot)
    }

    /// Stores the value of the last option, split at the first `sep` into a non-empty key
    /// and a part read as a `T`, in an empty slot. When the slot is already filled, fails
    /// with `UnexpectedArgument` (naming the last option) and reads nothing; on failure the
    /// slot is left as it was.
    pub fn store_split_once_nonempty_key_parse<T: FromValue>(
        &mut self,
        sep: char,
        slot: &mut Option<(String, T)>,
    ) -> (r: Result<(), Error>)
        requires
            old(self).wf(),
        ensures
            final(self).wf(),
            match *old(slot) {
                Some(_) => fails_with(r, repeated(old(self)@)) && final(self)@ == old(self)@
                    && *final(slot) == *old(slot),
                None => final(self)@ == take_value_model(old(self)@).1 && match take_value_model(
                    old(self)@,
                ).0 {
                    Ok(raw) => if split_parses::<T>(raw, sep, true) {
                        *final(slot) matches Some(p) && (split_text(raw, sep, true) matches Ok(q)
                            && q.0 == p.0@ && T::denotes(q.1, p.1)) && r is Ok
                    } else {
                        fails_with(r, split_parse_error(raw, sep, true)) && *final(slot) is None
                    },
                    Err(m) => fails_with(r, m) && *final(slot) is None,
                },
            },
    {
        if slot.is_some() {
            return Err(self.repeated_error());
        }
        let v = self.value()?;
        v.store_split_once_nonempty_key_parse::<T>(sep, slot)
    }

    /// Appends the value of the last option, as raw bytes, to `out`.
    pub fn push_os_string(&mut self, out: &mut Vec<Vec<u8>>) -> (r: Result<(), Error>)
        requires
            old(self).wf(),
        ensures
            final(self).wf(),
            final(self)@ == take_value_model(old(self)@).1,
            match take_value_model(old(self)@).0 {
                Ok(raw) => r is Ok && final(out)@.len() == old(out)@.len() + 1
                    && final(out)@.drop_last() == old(out)@ && final(out)@.last()@ == raw,
                Err(m) => fails_with(r, m) && final(out)@ == old(out)@,
            },
    {
        let v = self.value()?;
        v.push_os_string(out);
        Ok(())
    }

    /// Appends the value of the last option, as text, to `out`.
    pub fn push_string(&mut self, out: &mut Vec<String>) -> (r: Result<(), Error>)
        requires
            old(self).wf(),
        ensures
            final(self).wf(),
            final(self)@ == take_value_model(old(self)@).1,
            match take_value_model(old(self)@).0 {
                Ok(raw) => match text_of(raw) {
                    Ok(t) => r is Ok && final(out)@.len() == old(out)@.len() + 1
                        && final(out)@.drop_last() == old(out)@ && final(out)@.last()@ == t,
                    Err(m) => fails_with(r, m) && final(out)@ == old(out)@,
                },
                Err(m) => fails_with(r, m) && final(out)@ == old(out)@,
            },
    {
        let v = self.value()?;
        v.push_string(out)
    }

    /// Appends the value of the last option, read as a `T`, to `out`.
    pub fn push_parse<T: FromValue>(&mut self, out: &mut Vec<T>) -> (r: Result<(), Error>)
        requires
            old(self).wf(),
        ensures
            final(self).wf(),
            final(self)@ == take_value_model(old(self)@).1,
            match take_value_model(old(self)@).0 {
                Ok(raw) => if parses::<T>(raw) {
                    r is Ok && final(out)@.len() == old(out)@.len() + 1 && final(out)@.drop_last()
                        == old(out)@ && T::denotes(decode_utf8(raw), final(out)@.last())
                } else {
                    fails_with(r, parse_error(raw)) && final(out)@ == old(out)@
                },
                Err(m) => fails_with(r, m) && final(out)@ == old(out)@,
            },
    {
        let v = self.value()?;
        v.push_parse::<T>(out)
    }

    /// Appends the value of the last option, split at the first `sep` into a non-empty key
    /// and a value, to `out`.
    pub fn push_split_once_nonempty_key_owned(
        &mut self,
        sep: char,
        out: &mut Vec<(String, String)>,
    ) -> (r: Result<(), Error>)
        requires
            old(self).wf(),
        ensures
            final(self).wf(),
            final(self)@ == take_value_model(old(self)@).1,
            match take_value_model(old(self)@).0 {
                Ok(raw) => match split_text(raw, sep, true) {
                    Ok(q) => r is Ok && final(out)@.len() == old(out)@.len() + 1
                        && final(out)@.drop_last() == old(out)@ && final(out)@.last().0@ == q.0
                        && final(out)@.last().1@ == q.1,
                    Err(m) => fails_with(r, m) && final(out)@ == old(out)@,
                },
                Err(m) => fails_with(r, m) && final(out)@ == old(out)@,
            },
    {
        let v = self.value()?;
        v.push_split_once_nonempty_key_owned(sep, out)
    }

    /// Appends the value of the last option, split at the first `sep` into a non-empty key
    /// and a part read as a `T`, to `out`.
    pub fn push_split_once_nonempty_key_parse<T: FromValue>(
        &mut self,
        sep: char,
        out: &mut Vec<(String, T)>,
    ) -> (r: Result<(), Error>)
        requires
            old(self).wf(),
        ensures
            final(self).wf(),
            final(self)@ == take_value_model(old(self)@).1,
            match take_value_model(old(self)@).0 {
                Ok(raw) => if split_parses::<T>(raw, sep, true) {
                    r is Ok && final(out)@.len() == old(out)@.len() + 1 && final(out)@.drop_last()
                        == old(out)@ && (split_text(raw, sep, true) matches Ok(q) && q.0
                        == final(out)@.last().0@ && T::denotes(q.1, final(out)@.last().1))
                } else {
                    fails_with(r, split_parse_error(raw, sep, true)) && final(out)@ == old(out)@
                },
                Err(m) => fails_with(r, m) && final(out)@ == old(out)@,
            },
    {
        let v = self.value()?;
        v.push_split_once_nonempty_key_parse::<T>(sep, out)
    }

    /// The arguments not yet read, as [`remaining_model`] describes them.
    fn remaining_vec(&self) -> (r: Vec<Vec<u8>>)
        requires
            self.wf(),
        ensures
            r@.map_values(|a: Vec<u8>| a@) == remaining_model(self@),
    {
        let mut out: Vec<Vec<u8>> = Vec::new();
        match self.pending {
            Pending::Idle => {},
            Pending::Cluster { arg, offset } => {
                proof {
                    self.lemma_args(arg as int);
                }
                let a = self.args[arg].as_slice();
                let mut head = vec![DASH];
                head.extend_from_slice(vstd::slice::slice_subrange(a, offset, a.len()));
                proof {
                    assert(head@ =~= seq![DASH] + a@.skip(offset as int));
                }
                out.push(head);
                proof {
                    assert(out@.map_values(|a: Vec<u8>| a@) =~= seq![seq![DASH] + a@.skip(offset as int)]);
                }
            },
            Pending::Attached { arg, offset } => {
                proof {
                    self.lemma_args(arg as int);
                }
                let a = self.args[arg].as_slice();
                out.push(vstd::slice::slice_to_vec(vstd::slice::slice_subrange(a, offset, a.len())));
                proof {
                    assert(out@.map_values(|a: Vec<u8>| a@) =~= seq![a@.skip(offset as int)]);
                }
            },
        }
        let ghost head = out@.map_values(|a: Vec<u8>| a@);
        proof {
            let m = self@;
            let expected: Seq<Seq<u8>> = match m.pending {
                PendingModel::Idle => seq![],
                PendingModel::Cluster { arg, offset } => seq![seq![DASH] + m.args[arg].skip(offset)],
                PendingModel::Attached { arg, offset } => seq![m.args[arg].skip(offset)],
            };
            assert(head =~= expected);
        }
        let mut i = self.pos;
        let n = self.args.len();
        while i < n
            invariant
                self.wf(),
                n == self.args@.len(),
                self@.pos <= i <= n,
                out@.map_values(|a: Vec<u8>| a@) =~= head + self@.args.subrange(self@.pos, i as int),
            decreases n - i,
        {
            proof {
                self.lemma_args(i as int);
            }
            let ghost prev = out@;
            out.push(vstd::slice::slice_to_vec(self.args[i].as_slice()));
            proof {
                assert(out@.map_values(|a: Vec<u8>| a@) =~= prev.map_values(|a: Vec<u8>| a@).push(self@.args[i as int]));
                assert(self@.args.subrange(self@.pos, i + 1) =~= self@.args.subrange(self@.pos, i as int).push(self@.args[i as int]));
            }
            i = i + 1;
        }
        proof {
            assert(self@.args.subrange(self@.pos, n as int) =~= self@.args.skip(self@.pos));
        }
        out
    }

    /// Ends parsing and hands out the arguments not yet read, as [`remaining_model`]
    /// describes them: a partly read cluster comes back as `-` and its remaining options.
    pub fn into_remaining(self) -> (r: std::vec::IntoIter<Vec<u8>>)
        requires
            self.wf(),
        ensures
            r.remaining().map_values(|a: Vec<u8>| a@) == remaining_model(self@),
    {
        let v = self.remaining_vec();
        v.into_iter()
    }

    /// Ends parsing after a positional value: hands out that value and the arguments not
    /// yet read. Fails with `ValueUnavailable` when the last item is not a positional value.
    pub fn current_value_and_remaining(self) -> (r: Result<(Vec<u8>, Vec<Vec<u8>>), Error>)
        requires
            self.wf(),
        ensures
            match self@.last {
                LastModel::Positional { arg } => r matches Ok(p) && p.0@ == self@.args[arg]
                    && p.1@.map_values(|a: Vec<u8>| a@) == remaining_model(self@),
                _ => fails_with(r, unavailable(self@)),
            },
    {
        match self.last {
            Last::Positional { arg } => {
                proof {
                    self.lemma_args(arg as int);
                }
                let value = vstd::slice::slice_to_vec(self.args[arg].as_slice());
                let rest = self.remaining_vec();
                Ok((value, rest))
            },
            _ => Err(Error::with_optional_argument(ErrorKind::ValueUnavailable, self.last_argument())),
        }
    }

    /// A parser over the given arguments, taken as text.
    pub fn from_args(args: &[&str]) -> (p: Parser)
        ensures
            p.wf(),
            p@ == initial_model(args@.map_values(|s: &str| s.spec_bytes())),
    {
        let mut raw: Vec<Vec<u8>> = Vec::new();
        let mut i: usize = 0;
        while i < args.len()
            invariant
                i <= args@.len(),
                raw@.map_values(|a: Vec<u8>| a@) =~= args@.subrange(0, i as int).map_values(
                    |s: &str| s.spec_bytes(),
                ),
            decreases args@.len() - i,
        {
            let ghost prev = raw@;
            raw.push(crate::text::str_bytes(args[i]));
            proof {
                assert(raw@.map_values(|a: Vec<u8>| a@) =~= prev.map_values(|a: Vec<u8>| a@).push(args@[i as int].spec_bytes()));
                assert(args@.subrange(0, i + 1).map_values(|s: &str| s.spec_bytes()) =~= args@.subrange(0, i as int).map_values(|s: &str| s.spec_bytes()).push(args@[i as int].spec_bytes()));
            }
            i = i + 1;
        }
        proof {
            assert(args@.subrange(0, args@.len() as int) =~= args@);
        }
        Parser::new(raw)
    }
}

} // verus!
