//! The items the parser hands out: [`Arg`], and [`Value`] with its conversions.
use vstd::prelude::*;
use vstd::string::*;
use vstd::utf8::*;
use crate::error::{Error, ErrorKind, ErrorModel, error_model};
use crate::from_value::FromValue;
use crate::text::{DASH, char_bytes, lossy_string, lossy_text, str_bytes, str_equal, utf8_text};

verus! {

broadcast use vstd::utf8::group_utf8_lib;

/// The mathematical content of an [`Arg`].
pub enum Token {
    Short(char),
    Long(Seq<char>),
    Value(Seq<u8>),
}

/// One command-line item: a short option such as `-v`, a long option such as
/// `--port` (without its dashes), or a positional value.
#[derive(Debug, Clone, Copy, PartialEq, Eq)]
pub enum Arg<'a> {
    Short(char),
    Long(&'a str),
    Value(Value<'a>),
}

/// A raw argument or option value, as the bytes the program was given; it need not be
/// valid UTF-8.
#[derive(Debug, Clone, Copy, PartialEq, Eq)]
pub struct Value<'a> {
    raw: &'a [u8],
}

impl<'a> View for Value<'a> {
    type V = Seq<u8>;

    closed spec fn view(&self) -> Seq<u8> {
        self.raw@
    }
}

impl<'a> View for Arg<'a> {
    type V = Token;

    open spec fn view(&self) -> Token {
        match self {
            Arg::Short(c) => Token::Short(*c),
            Arg::Long(name) => Token::Long(name@),
            Arg::Value(v) => Token::Value(v@),
        }
    }
}

/// How an option or value is written on the command line, as bytes: `-c`, `--name`, or
/// the raw value.
pub open spec fn token_bytes(t: Token) -> Seq<u8> {
    match t {
        Token::Short(c) => seq![DASH] + encode_utf8(seq![c]),
        Token::Long(name) => seq![DASH, DASH] + encode_utf8(name),
        Token::Value(raw) => raw,
    }
}

/// How an option or value is shown to a person: `-c`, `--name`, or the value read as
/// text with invalid UTF-8 replaced.
pub open spec fn token_text(t: Token) -> Seq<char> {
    match t {
        Token::Short(c) => seq!['-', c],
        Token::Long(name) => seq!['-', '-'] + name,
        Token::Value(raw) => lossy_text(raw),
    }
}

/// The error that reports `t` as not accepted by the program.
pub open spec fn unexpected_model(t: Token) -> ErrorModel {
    match t {
        Token::Value(raw) => error_model(ErrorKind::UnexpectedPositional, Some(raw)),
        _ => error_model(ErrorKind::UnexpectedArgument, Some(token_bytes(t))),
    }
}

/// The text of a raw value, or the error for one that is not valid UTF-8.
pub open spec fn text_of(raw: Seq<u8>) -> Result<Seq<char>, ErrorModel> {
    if valid_utf8(raw) {
        Ok(decode_utf8(raw))
    } else {
        Err(error_model(ErrorKind::InvalidUtf8, Some(raw)))
    }
}

/// Index of the first `x` in `s` at or after `i`, or `s.len()` when there is none.
pub open spec fn first_from<A>(s: Seq<A>, x: A, i: int) -> int
    decreases s.len() - i,
{
    if i < 0 || i >= s.len() {
        s.len() as int
    } else if s[i] == x {
        i
    } else {
        first_from(s, x, i + 1)
    }
}

/// Splitting a raw value at the first `sep` into key and value text. Fails with
/// `InvalidUtf8` when the value is not text, and with `InvalidValue` when `sep` does not
/// occur (or, with `nonempty_key`, when the key before it is empty).
pub open spec fn split_text(raw: Seq<u8>, sep: char, nonempty_key: bool) -> Result<
    (Seq<char>, Seq<char>),
    ErrorModel,
> {
    if !valid_utf8(raw) {
        Err(error_model(ErrorKind::InvalidUtf8, Some(raw)))
    } else {
        let t = decode_utf8(raw);
        let i = first_from(t, sep, 0);
        if i >= t.len() || (nonempty_key && i == 0) {
            Err(error_model(ErrorKind::InvalidValue, Some(raw)))
        } else {
            Ok((t.take(i), t.skip(i + 1)))
        }
    }
}

/// The error for a positional value offered to a slot that is already filled.
pub open spec fn duplicate_model(raw: Seq<u8>) -> ErrorModel {
    error_model(ErrorKind::UnexpectedPositional, Some(raw))
}

/// Reading a raw value as a `T` succeeds.
pub open spec fn parses<T: FromValue>(raw: Seq<u8>) -> bool {
    valid_utf8(raw) && T::accepts(decode_utf8(raw))
}

/// The error when reading a raw value as a `T` fails.
pub open spec fn parse_error(raw: Seq<u8>) -> ErrorModel {
    if valid_utf8(raw) {
        error_model(ErrorKind::InvalidValue, Some(raw))
    } else {
        error_model(ErrorKind::InvalidUtf8, Some(raw))
    }
}

/// Splitting a raw value at `sep` and reading its value part as a `T` succeeds.
pub open spec fn split_parses<T: FromValue>(raw: Seq<u8>, sep: char, nonempty_key: bool) -> bool {
    split_text(raw, sep, nonempty_key) matches Ok(p) && T::accepts(p.1)
}

/// The error when splitting a raw value at `sep` and reading its value part fails.
pub open spec fn split_parse_error(raw: Seq<u8>, sep: char, nonempty_key: bool) -> ErrorModel {
    match split_text(raw, sep, nonempty_key) {
        Err(e) => e,
        Ok(_) => error_model(ErrorKind::InvalidValue, Some(raw)),
    }
}

fn find_char(s: &str, sep: char) -> (r: usize)
    ensures
        r == first_from(s@, sep, 0),
        r <= s@.len(),
{
    let n = s.unicode_len();
    let mut i: usize = 0;
    while i < n
        invariant
            n == s@.len(),
            i <= n,
            first_from(s@, sep, 0) == first_from(s@, sep, i as int),
        decreases n - i,
    {
        if s.get_char(i) == sep {
            return i;
        }
        i = i + 1;
    }
    i
}

impl<'a> Value<'a> {
    /// A value over the given raw bytes.
    pub(crate) fn from_raw(raw: &'a [u8]) -> (v: Value<'a>)
        ensures
            v@ == raw@,
    {
        Value { raw }
    }

    /// The raw bytes of this value.
    pub fn as_os_str(&self) -> (r: &'a [u8])
        ensures
            r@ == self@,
    {
        self.raw
    }

    /// A copy of the raw bytes of this value.
    pub fn to_os_string(&self) -> (r: Vec<u8>)
        ensures
            r@ == self@,
    {
        vstd::slice::slice_to_vec(self.raw)
    }

    /// This value as text; fails with `InvalidUtf8` when it is not valid UTF-8.
    pub fn to_str(&self) -> (r: Result<&'a str, Error>)
        ensures
            r is Ok <==> text_of(self@) is Ok,
            r matches Ok(s) ==> text_of(self@) == Ok::<Seq<char>, ErrorModel>(s@),
            r matches Err(e) ==> text_of(self@) == Err::<Seq<char>, ErrorModel>(e@),
    {
        match utf8_text(self.raw) {
            Some(s) => Ok(s),
            None => Err(Error::invalid_utf8(self.to_os_string())),
        }
    }

    /// This value as an owned string; fails with `InvalidUtf8` when it is not valid UTF-8.
    pub fn to_owned_string(&self) -> (r: Result<String, Error>)
        ensures
            r is Ok <==> text_of(self@) is Ok,
            r matches Ok(s) ==> text_of(self@) == Ok::<Seq<char>, ErrorModel>(s@),
            r matches Err(e) ==> text_of(self@) == Err::<Seq<char>, ErrorModel>(e@),
    {
        let s = self.to_str()?;
        Ok(s.to_owned())
    }

    /// This value shown as text, with invalid UTF-8 replaced.
    pub fn to_string(&self) -> (r: String)
        ensures
            r@ == lossy_text(self@),
    {
        lossy_string(self.raw)
    }

    /// Reads this value as a `T`; fails with `InvalidUtf8` when it is not text and with
    /// `InvalidValue` when the text does not denote a `T`.
    pub fn parse<T: FromValue>(&self) -> (r: Result<T, Error>)
        ensures
            r is Ok <==> parses::<T>(self@),
            r matches Ok(v) ==> T::denotes(decode_utf8(self@), v),
            r matches Err(e) ==> e@ == parse_error(self@),
    {
        let s = self.to_str()?;
        match T::from_text(s) {
            Some(v) => Ok(v),
            None => Err(self.invalid()),
        }
    }

    /// The `InvalidValue` error for this value.
    pub fn invalid(&self) -> (e: Error)
        ensures
            e@ == error_model(ErrorKind::InvalidValue, Some(self@)),
    {
        Error::with_argument(ErrorKind::InvalidValue, self.to_os_string())
    }

    fn split(&self, sep: char, nonempty_key: bool) -> (r: Result<(&'a str, &'a str), Error>)
        ensures
            r is Ok <==> split_text(self@, sep, nonempty_key) is Ok,
            r matches Ok(p) ==> split_text(self@, sep, nonempty_key) == Ok::<
                (Seq<char>, Seq<char>),
                ErrorModel,
            >((p.0@, p.1@)),
            r matches Err(e) ==> split_text(self@, sep, nonempty_key) == Err::<
                (Seq<char>, Seq<char>),
                ErrorModel,
            >(e@),
    {
        let s = self.to_str()?;
        let n = s.unicode_len();
        let i = find_char(s, sep);
        if i >= n || (nonempty_key && i == 0) {
            return Err(self.invalid());
        }
        let key = s.substring_char(0, i);
        let value = s.substring_char(i + 1, n);
        proof {
            assert(key@ =~= s@.take(i as int));
            assert(value@ =~= s@.skip(i + 1));
        }
        Ok((key, value))
    }

    /// Splits this value at the first `sep` into key and value; fails with `InvalidValue`
    /// when `sep` does not occur.
    pub fn split_once_required(&self, sep: char) -> (r: Result<(&'a str, &'a str), Error>)
        ensures
            r is Ok <==> split_text(self@, sep, false) is Ok,
            r matches Ok(p) ==> split_text(self@, sep, false) == Ok::<
                (Seq<char>, Seq<char>),
                ErrorModel,
            >((p.0@, p.1@)),
            r matches Err(e) ==> split_text(self@, sep, false) == Err::<
                (Seq<char>, Seq<char>),
                ErrorModel,
            >(e@),
    {
        self.split(sep, false)
    }

    /// Splits this value at the first `sep` into a non-empty key and a value; fails with
    /// `InvalidValue` when `sep` does not occur or the key is empty.
    pub fn split_once_nonempty_key(&self, sep: char) -> (r: Result<(&'a str, &'a str), Error>)
        ensures
            r is Ok <==> split_text(self@, sep, true) is Ok,
            r matches Ok(p) ==> split_text(self@, sep, true) == Ok::<
                (Seq<char>, Seq<char>),
                ErrorModel,
            >((p.0@, p.1@)),
            r matches Err(e) ==> split_text(self@, sep, true) == Err::<
                (Seq<char>, Seq<char>),
                ErrorModel,
            >(e@),
    {
        self.split(sep, true)
    }

    /// As [`Value::split_once_nonempty_key`], with owned strings.
    pub fn split_once_nonempty_key_owned(&self, sep: char) -> (r: Result<(String, String), Error>)
        ensures
            r is Ok <==> split_text(self@, sep, true) is Ok,
            r matches Ok(p) ==> split_text(self@, sep, true) == Ok::<
                (Seq<char>, Seq<char>),
                ErrorModel,
            >((p.0@, p.1@)),
            r matches Err(e) ==> split_text(self@, sep, true) == Err::<
                (Seq<char>, Seq<char>),
                ErrorModel,
            >(e@),
    {
        let (k, v) = self.split(sep, true)?;
        Ok((k.to_owned(), v.to_owned()))
    }

    fn split_parse<T: FromValue>(&self, sep: char, nonempty_key: bool) -> (r: Result<
        (&'a str, T),
        Error,
    >)
        ensures
            r is Ok <==> split_parses::<T>(self@, sep, nonempty_key),
            r matches Ok(p) ==> (split_text(self@, sep, nonempty_key) matches Ok(q) && q.0 == p.0@
                && T::denotes(q.1, p.1)),
            r matches Err(e) ==> e@ == split_parse_error(self@, sep, nonempty_key),
    {
        let (k, v) = self.split(sep, nonempty_key)?;
        match T::from_text(v) {
            Some(t) => Ok((k, t)),
            None => Err(self.invalid()),
        }
    }

    /// Splits this value at the first `sep` and reads the part after it as a `T`.
    pub fn split_once_parse_value<T: FromValue>(&self, sep: char) -> (r: Result<(&'a str, T), Error>)
        ensures
            r is Ok <==> split_parses::<T>(self@, sep, false),
            r matches Ok(p) ==> (split_text(self@, sep, false) matches Ok(q) && q.0 == p.0@
                && T::denotes(q.1, p.1)),
            r matches Err(e) ==> e@ == split_parse_error(self@, sep, false),
    {
        self.split_parse(sep, false)
    }

    /// Splits this value at the first `sep` into a non-empty key and a part read as a `T`.
    pub fn split_once_nonempty_key_parse<T: FromValue>(&self, sep: char) -> (r: Result<
        (&'a str, T),
        Error,
    >)
        ensures
            r is Ok <==> split_parses::<T>(self@, sep, true),
            r matches Ok(p) ==> (split_text(self@, sep, true) matches Ok(q) && q.0 == p.0@
                && T::denotes(q.1, p.1)),
            r matches Err(e) ==> e@ == split_parse_error(self@, sep, true),
    {
        self.split_parse(sep, true)
    }

    /// The `UnexpectedPositional` error for this value, used when a slot is already filled.
    fn duplicate(&self) -> (e: Error)
        ensures
            e@ == duplicate_model(self@),
    {
        Error::unexpected_positional(self.to_os_string())
    }

    /// Stores the raw bytes in an empty slot; fails with `UnexpectedPositional` when the
    /// slot is already filled, which it then leaves as it was.
    pub fn store_os_string(self, slot: &mut Option<Vec<u8>>) -> (r: Result<(), Error>)
        ensures
            match *old(slot) {
                Some(_) => r matches Err(e) && e@ == duplicate_model(self@) && *final(slot)
                    == *old(slot),
                None => *final(slot) matches Some(b) && b@ == self@ && r is Ok,
            },
    {
        if slot.is_some() {
            return Err(self.duplicate());
        }
        *slot = Some(self.to_os_string());
        Ok(())
    }

    /// Stores the text of this value in an empty slot. Fails with `UnexpectedPositional`
    /// when the slot is already filled, and with `InvalidUtf8` when the value is not text;
    /// on failure the slot is left as it was.
    pub fn store_string(self, slot: &mut Option<String>) -> (r: Result<(), Error>)
        ensures
            match *old(slot) {
                Some(_) => r matches Err(e) && e@ == duplicate_model(self@) && *final(slot)
                    == *old(slot),
                None => match text_of(self@) {
                    Ok(t) => *final(slot) matches Some(s) && s@ == t && r is Ok,
                    Err(m) => r matches Err(e) && e@ == m && *final(slot) is None,
                },
            },
    {
        if slot.is_some() {
            return Err(self.duplicate());
        }
        let s = self.to_owned_string()?;
        *slot = Some(s);
        Ok(())
    }

    /// Stores this value read as a `T` in an empty slot. Fails with `UnexpectedPositional`
    /// when the slot is already filled, and as [`Value::parse`] does otherwise; on failure
    /// the slot is left as it was.
    pub fn store_parse<T: FromValue>(self, slot: &mut Option<T>) -> (r: Result<(), Error>)
        ensures
            match *old(slot) {
                Some(_) => r matches Err(e) && e@ == duplicate_model(self@) && *final(slot)
                    == *old(slot),
                None => if parses::<T>(self@) {
                    *final(slot) matches Some(v) && T::denotes(decode_utf8(self@), v) && r is Ok
                } else {
                    r matches Err(e) && e@ == parse_error(self@) && *final(slot) is None
                },
            },
    {
        if slot.is_some() {
            return Err(self.duplicate());
        }
        let v = self.parse::<T>()?;
        *slot = Some(v);
        Ok(())
    }

    /// Stores the key and value of this value, split at the first `sep` with a non-empty
    /// key, in an empty slot. Fails with `UnexpectedPositional` when the slot is already
    /// filled, and as [`Value::split_once_nonempty_key`] does otherwise; on failure the
    /// slot is left as it was.
    pub fn store_split_once_nonempty_key_owned(
        self,
        sep: char,
        slot: &mut Option<(String, String)>,
    ) -> (r: Result<(), Error>)
        ensures
            match *old(slot) {
                Some(_) => r matches Err(e) && e@ == duplicate_model(self@) && *final(slot)
                    == *old(slot),
                None => match split_text(self@, sep, true) {
                    Ok(q) => *final(slot) matches Some(p) && p.0@ == q.0 && p.1@ == q.1 && r is Ok,
                    Err(m) => r matches Err(e) && e@ == m && *final(slot) is None,
                },
            },
    {
        if slot.is_some() {
            return Err(self.duplicate());
        }
        let p = self.split_once_nonempty_key_owned(sep)?;
        *slot = Some(p);
        Ok(())
    }

    /// Stores the non-empty key and the value read as a `T` of this value, split at the
    /// first `sep`, in an empty slot. Fails with `UnexpectedPositional` when the slot is
    /// already filled, and as [`Value::split_once_nonempty_key_parse`] does otherwise; on
    /// failure the slot is left as it was.
    pub fn store_split_once_nonempty_key_parse<T: FromValue>(
        self,
        sep: char,
        slot: &mut Option<(String, T)>,
    ) -> (r: Result<(), Error>)
        ensures
            match *old(slot) {
                Some(_) => r matches Err(e) && e@ == duplicate_model(self@) && *final(slot)
                    == *old(slot),
                None => if split_parses::<T>(self@, sep, true) {
                    *final(slot) matches Some(p) && (split_text(self@, sep, true) matches Ok(q)
                        && q.0 == p.0@ && T::denotes(q.1, p.1)) && r is Ok
                } else {
                    r matches Err(e) && e@ == split_parse_error(self@, sep, true) && *final(slot) is None
                },
            },
    {
        if slot.is_some() {
            return Err(self.duplicate());
        }
        let (k, v) = self.split_once_nonempty_key_parse::<T>(sep)?;
        *slot = Some((k.to_owned(), v));
        Ok(())
    }


    pub fn push_os_string(self, out: &mut Vec<Vec<u8>>)
        ensures
            final(out)@.len() == old(out)@.len() + 1,
            final(out)@.drop_last() == old(out)@,
            final(out)@.last()@ == self@,
    {
        out.push(self.to_os_string());
        proof {
            assert(final(out)@.drop_last() =~= old(out)@);
        }
    }

    /// Appends the text of this value to `out`; fails with `InvalidUtf8`, leaving `out` as
    /// it was, when the value is not text.
    pub fn push_string(self, out: &mut Vec<String>) -> (r: Result<(), Error>)
        ensures
            r is Ok <==> text_of(self@) is Ok,
            r is Ok ==> final(out)@.len() == old(out)@.len() + 1 && final(out)@.drop_last()
                == old(out)@ && text_of(self@) == Ok::<Seq<char>, ErrorModel>(final(out)@.last()@),
            r matches Err(e) ==> text_of(self@) == Err::<Seq<char>, ErrorModel>(e@)
                && final(out)@ == old(out)@,
    {
        let s = self.to_owned_string()?;
        out.push(s);
        proof {
            assert(final(out)@.drop_last() =~= old(out)@);
        }
        Ok(())
    }

    /// Appends this value read as a `T` to `out`; fails as [`Value::parse`] does, leaving
    /// `out` as it was.
    pub fn push_parse<T: FromValue>(self, out: &mut Vec<T>) -> (r: Result<(), Error>)
        ensures
            r is Ok <==> parses::<T>(self@),
            r is Ok ==> final(out)@.len() == old(out)@.len() + 1 && final(out)@.drop_last()
                == old(out)@ && T::denotes(decode_utf8(self@), final(out)@.last()),
            r matches Err(e) ==> e@ == parse_error(self@) && final(out)@ == old(out)@,
    {
        let v = self.parse::<T>()?;
        out.push(v);
        proof {
            assert(final(out)@.drop_last() =~= old(out)@);
        }
        Ok(())
    }

    /// Appends the key and value of this value, split at the first `sep` with a non-empty
    /// key, to `out`; fails as [`Value::split_once_nonempty_key`] does, leaving `out` as it
    /// was.
    pub fn push_split_once_nonempty_key_owned(self, sep: char, out: &mut Vec<(String, String)>) -> (r:
        Result<(), Error>)
        ensures
            r is Ok <==> split_text(self@, sep, true) is Ok,
            r is Ok ==> final(out)@.len() == old(out)@.len() + 1 && final(out)@.drop_last()
                == old(out)@ && split_text(self@, sep, true) == Ok::<
                (Seq<char>, Seq<char>),
                ErrorModel,
            >((final(out)@.last().0@, final(out)@.last().1@)),
            r matches Err(e) ==> split_text(self@, sep, true) == Err::<
                (Seq<char>, Seq<char>),
                ErrorModel,
            >(e@) && final(out)@ == old(out)@,
    {
        let p = self.split_once_nonempty_key_owned(sep)?;
        out.push(p);
        proof {
            assert(final(out)@.drop_last() =~= old(out)@);
        }
        Ok(())
    }

    /// Appends the non-empty key and the value read as a `T` of this value, split at the
    /// first `sep`, to `out`; fails as [`Value::split_once_nonempty_key_parse`] does,
    /// leaving `out` as it was.
    pub fn push_split_once_nonempty_key_parse<T: FromValue>(
        self,
        sep: char,
        out: &mut Vec<(String, T)>,
    ) -> (r: Result<(), Error>)
        ensures
            r is Ok <==> split_parses::<T>(self@, sep, true),
            r is Ok ==> (final(out)@.len() == old(out)@.len() + 1 && final(out)@.drop_last()
                == old(out)@ && (split_text(self@, sep, true) matches Ok(q) && q.0
                == final(out)@.last().0@ && T::denotes(q.1, final(out)@.last().1))),
            r matches Err(e) ==> e@ == split_parse_error(self@, sep, true) && final(out)@ == old(
                out,
            )@,
    {
        let (k, v) = self.split_once_nonempty_key_parse::<T>(sep)?;
        out.push((k.to_owned(), v));
        proof {
            assert(final(out)@.drop_last() =~= old(out)@);
        }
        Ok(())
    }
}

impl<'a> Arg<'a> {
    /// The character of a short option.
    pub fn as_short(&self) -> (r: Option<char>)
        ensures
            r == (match self@ {
                Token::Short(c) => Some(c),
                _ => None,
            }),
    {
        match self {
            Arg::Short(c) => Some(*c),
            _ => None,
        }
    }

    /// The name of a long option.
    pub fn as_long(&self) -> (r: Option<&'a str>)
        ensures
            r is Some <==> self@ is Long,
            r matches Some(n) ==> self@ == Token::Long(n@),
    {
        match self {
            Arg::Long(n) => Some(*n),
            _ => None,
        }
    }

    /// The value of a positional argument.
    pub fn as_value(self) -> (r: Option<Value<'a>>)
        ensures
            r is Some <==> self@ is Value,
            r matches Some(v) ==> self@ == Token::Value(v@),
    {
        match self {
            Arg::Value(v) => Some(v),
            _ => None,
        }
    }

    /// Whether this is a positional value.
    pub fn is_value(&self) -> (r: bool)
        ensures
            r <==> self@ is Value,
    {
        match self {
            Arg::Value(_) => true,
            _ => false,
        }
    }

    /// Whether this is the short option `short`.
    pub fn is_short(&self, short: char) -> (r: bool)
        ensures
            r <==> self@ == Token::Short(short),
    {
        match self {
            Arg::Short(c) => *c == short,
            _ => false,
        }
    }

    /// Whether this is the long option `long`.
    pub fn is_long(&self, long: &str) -> (r: bool)
        ensures
            r <==> self@ == Token::Long(long@),
    {
        match self {
            Arg::Long(n) => str_equal(n, long),
            _ => false,
        }
    }

    /// Whether this is the short option `short` or the long option `long`.
    pub fn matches(&self, short: char, long: &str) -> (r: bool)
        ensures
            r <==> (self@ == Token::Short(short) || self@ == Token::Long(long@)),
    {
        self.is_short(short) || self.is_long(long)
    }

    /// This item as written on the command line, as bytes.
    pub fn to_os_string(&self) -> (r: Vec<u8>)
        ensures
            r@ == token_bytes(self@),
    {
        match self {
            Arg::Short(c) => {
                let mut r = vec![DASH];
                let b = char_bytes(*c);
                r.extend_from_slice(b.as_slice());
                proof {
                    assert(r@ =~= token_bytes(self@));
                }
                r
            },
            Arg::Long(n) => {
                let mut r = vec![DASH, DASH];
                let b = str_bytes(n);
                r.extend_from_slice(b.as_slice());
                proof {
                    assert(r@ =~= token_bytes(self@));
                }
                r
            },
            Arg::Value(v) => v.to_os_string(),
        }
    }

    /// The error that reports this item as not accepted: `UnexpectedArgument` for an option,
    /// `UnexpectedPositional` for a value.
    pub fn unexpected(&self) -> (e: Error)
        ensures
            e@ == unexpected_model(self@),
    {
        match self {
            Arg::Value(v) => Error::unexpected_positional(v.to_os_string()),
            _ => Error::with_argument(ErrorKind::UnexpectedArgument, self.to_os_string()),
        }
    }

    /// This item shown as text: `-c`, `--name`, or the value with invalid UTF-8 replaced.
    pub fn to_string(&self) -> (r: String)
        ensures
            r@ == token_text(self@),
    {
        match self {
            Arg::Short(c) => {
                let b = char_bytes(*c);
                let mut r = "-".to_owned();
                proof {
                    assert(valid_utf8(encode_utf8(seq![*c])));
                }
                let s = utf8_text(b.as_slice()).unwrap();
                r.append(s);
                proof {
                    reveal_strlit("-");
                    assert(decode_utf8(encode_utf8(seq![*c])) == seq![*c]);
                    assert(r@ =~= token_text(self@));
                }
                r
            },
            Arg::Long(n) => {
                let mut r = "--".to_owned();
                r.append(n);
                proof {
                    reveal_strlit("--");
                    assert(r@ =~= token_text(self@));
                }
                r
            },
            Arg::Value(v) => v.to_string(),
        }
    }
}

} // verus!
