//! Properties of reading option values: typed readings, optional and required values,
//! splitting, and the help text.
use vstd::prelude::*;
use vstd::utf8::*;
use crate::arg::{first_from, parse_error, parses, split_text, text_of};
use crate::error::{ErrorKind, error_model};
use crate::help::{help_text, section_text};
use crate::parser::{
    LastModel, ParserModel, PendingModel, option_like, take_value_model, take_value_opt_model,
};
use crate::text::EQUALS;
use crate::from_value::{FromValue, all_digits, decimal, digit_value, integer_text, is_digit};

verus! {

/// The decimal digit character for `d`, for `d < 10`.
pub open spec fn digit_char(d: nat) -> char {
    seq!['0', '1', '2', '3', '4', '5', '6', '7', '8', '9'][d as int]
}

/// How a natural number is written in decimal, most significant digit first, without
/// leading zeros.
pub open spec fn decimal_digits(n: nat) -> Seq<char>
    decreases n,
{
    if n < 10 {
        seq![digit_char(n)]
    } else {
        decimal_digits(n / 10).push(digit_char(n % 10))
    }
}

/// How an integer is written in decimal: its digits, after a `-` when it is negative.
pub open spec fn decimal_text(n: int) -> Seq<char> {
    if n < 0 {
        seq!['-'] + decimal_digits((-n) as nat)
    } else {
        decimal_digits(n as nat)
    }
}

proof fn lemma_digit_char(d: nat)
    requires
        d < 10,
    ensures
        is_digit(digit_char(d)),
        digit_value(digit_char(d)) == d,
{
    assert(d == 0 || d == 1 || d == 2 || d == 3 || d == 4 || d == 5 || d == 6 || d == 7 || d == 8
        || d == 9);
}

proof fn lemma_decimal_digits(n: nat)
    ensures
        decimal_digits(n).len() > 0,
        all_digits(decimal_digits(n)),
        decimal(decimal_digits(n)) == n,
    decreases n,
{
    if n < 10 {
        lemma_digit_char(n);
        let s = decimal_digits(n);
        assert(s.drop_last() =~= Seq::<char>::empty());
        assert(decimal(s.drop_last()) == 0);
    } else {
        lemma_decimal_digits(n / 10);
        lemma_digit_char(n % 10);
        let p = decimal_digits(n / 10);
        let s = decimal_digits(n);
        assert(s.drop_last() =~= p);
        assert(s.last() == digit_char(n % 10));
        assert forall|i: int| 0 <= i < s.len() implies is_digit(#[trigger] s[i]) by {
            if i < p.len() {
                assert(s[i] == p[i]);
            }
        }
    }
}

/// Reading the decimal text of any integer gives that integer back: `integer_text`
/// accepts exactly how integers are written (with `-` for negative ones when signed).
pub proof fn law_decimal_text_reads_back(n: int)
    ensures
        integer_text(decimal_text(n), true) == Some(n),
        n >= 0 ==> integer_text(decimal_text(n), false) == Some(n),
        n < 0 ==> integer_text(decimal_text(n), false) is None,
{
    let t = decimal_text(n);
    if n < 0 {
        let d = decimal_digits((-n) as nat);
        lemma_decimal_digits((-n) as nat);
        assert(t.skip(1) =~= d);
        assert(t[0] == '-');
        assert(!is_digit(t[0]));
        assert(!all_digits(t));
        assert(t.skip(0) =~= t);
    } else {
        let d = decimal_digits(n as nat);
        lemma_decimal_digits(n as nat);
        assert(is_digit(d[0]));
        assert(t.skip(0) =~= t);
    }
}

proof fn lemma_leading_zero(s: Seq<char>)
    ensures
        decimal(seq!['0'] + s) == decimal(s),
    decreases s.len(),
{
    let z = seq!['0'] + s;
    if s.len() > 0 {
        assert(z.drop_last() =~= seq!['0'] + s.drop_last());
        assert(z.last() == s.last());
        lemma_leading_zero(s.drop_last());
    } else {
        assert(z =~= seq!['0']);
        assert(z.drop_last() =~= Seq::<char>::empty());
        assert(decimal(Seq::<char>::empty()) == 0);
    }
}

proof fn lemma_leading_zeros(zeros: nat, d: Seq<char>)
    requires
        all_digits(d),
    ensures
        decimal(Seq::new(zeros, |i: int| '0') + d) == decimal(d),
        all_digits(Seq::new(zeros, |i: int| '0') + d),
    decreases zeros,
{
    let zs = Seq::new(zeros, |i: int| '0');
    let t = zs + d;
    assert forall|i: int| 0 <= i < t.len() implies is_digit(#[trigger] t[i]) by {
        if i >= zs.len() {
            assert(t[i] == d[i - zs.len()]);
        }
    }
    if zeros > 0 {
        lemma_leading_zeros((zeros - 1) as nat, d);
        let zs1 = Seq::new((zeros - 1) as nat, |i: int| '0');
        assert(t =~= seq!['0'] + (zs1 + d));
        lemma_leading_zero(zs1 + d);
    } else {
        assert(t =~= d);
    }
}

/// An integer may also be written with a leading `+`, and with leading zeros: `+7`, `007`
/// and `-007` (where a sign is allowed) read as 7, 7 and -7.
pub proof fn law_sign_and_leading_zeros(n: nat, zeros: nat, signed: bool)
    ensures
        integer_text(seq!['+'] + decimal_digits(n), signed) == Some(n as int),
        integer_text(Seq::new(zeros, |i: int| '0') + decimal_digits(n), signed) == Some(
            n as int,
        ),
        integer_text(seq!['-'] + Seq::new(zeros, |i: int| '0') + decimal_digits(n), true)
            == Some(-n),
{
    lemma_decimal_digits(n);
    let d = decimal_digits(n);
    assert((seq!['+'] + d).skip(1) =~= d);
    lemma_leading_zeros(zeros, d);
    let zs = Seq::new(zeros, |i: int| '0');
    let t = zs + d;
    assert(t.len() > 0);
    assert(is_digit(t[0]));
    assert(t.skip(0) =~= t);
    let u = seq!['-'] + zs + d;
    assert(u.skip(1) =~= t);
    assert(u[0] == '-');
}

/// `i8` reads the decimal text of exactly the integers from `i8::MIN` to `i8::MAX`,
/// negative ones included, and gives each back.
pub proof fn law_i8_reads_its_range(n: int)
    ensures
        <i8 as FromValue>::accepts(decimal_text(n)) <==> i8::MIN <= n <= i8::MAX,
        i8::MIN <= n <= i8::MAX ==> <i8 as FromValue>::denotes(decimal_text(n), n as i8),
{
    law_decimal_text_reads_back(n);
}

/// `i16` reads the decimal text of exactly the integers from `i16::MIN` to `i16::MAX`,
/// negative ones included, and gives each back.
pub proof fn law_i16_reads_its_range(n: int)
    ensures
        <i16 as FromValue>::accepts(decimal_text(n)) <==> i16::MIN <= n <= i16::MAX,
        i16::MIN <= n <= i16::MAX ==> <i16 as FromValue>::denotes(decimal_text(n), n as i16),
{
    law_decimal_text_reads_back(n);
}

/// `i32` reads the decimal text of exactly the integers from `i32::MIN` to `i32::MAX`,
/// negative ones included, and gives each back.
pub proof fn law_i32_reads_its_range(n: int)
    ensures
        <i32 as FromValue>::accepts(decimal_text(n)) <==> i32::MIN <= n <= i32::MAX,
        i32::MIN <= n <= i32::MAX ==> <i32 as FromValue>::denotes(decimal_text(n), n as i32),
{
    law_decimal_text_reads_back(n);
}

/// `i64` reads the decimal text of exactly the integers from `i64::MIN` to `i64::MAX`,
/// negative ones included, and gives each back.
pub proof fn law_i64_reads_its_range(n: int)
    ensures
        <i64 as FromValue>::accepts(decimal_text(n)) <==> i64::MIN <= n <= i64::MAX,
        i64::MIN <= n <= i64::MAX ==> <i64 as FromValue>::denotes(decimal_text(n), n as i64),
{
    law_decimal_text_reads_back(n);
}

/// `isize` reads the decimal text of exactly the integers from `isize::MIN` to `isize::MAX`,
/// negative ones included, and gives each back.
pub proof fn law_isize_reads_its_range(n: int)
    ensures
        <isize as FromValue>::accepts(decimal_text(n)) <==> isize::MIN <= n <= isize::MAX,
        isize::MIN <= n <= isize::MAX ==> <isize as FromValue>::denotes(decimal_text(n), n as isize),
{
    law_decimal_text_reads_back(n);
}

/// `u8` reads the decimal text of exactly the integers from 0 to `u8::MAX` and gives
/// each back; the text of a negative integer is refused.
pub proof fn law_u8_reads_its_range(n: int)
    ensures
        <u8 as FromValue>::accepts(decimal_text(n)) <==> 0 <= n <= u8::MAX,
        0 <= n <= u8::MAX ==> <u8 as FromValue>::denotes(decimal_text(n), n as u8),
{
    law_decimal_text_reads_back(n);
}

/// `u16` reads the decimal text of exactly the integers from 0 to `u16::MAX` and gives
/// each back; the text of a negative integer is refused.
pub proof fn law_u16_reads_its_range(n: int)
    ensures
        <u16 as FromValue>::accepts(decimal_text(n)) <==> 0 <= n <= u16::MAX,
        0 <= n <= u16::MAX ==> <u16 as FromValue>::denotes(decimal_text(n), n as u16),
{
    law_decimal_text_reads_back(n);
}

/// `u32` reads the decimal text of exactly the integers from 0 to `u32::MAX` and gives
/// each back; the text of a negative integer is refused.
pub proof fn law_u32_reads_its_range(n: int)
    ensures
        <u32 as FromValue>::accepts(decimal_text(n)) <==> 0 <= n <= u32::MAX,
        0 <= n <= u32::MAX ==> <u32 as FromValue>::denotes(decimal_text(n), n as u32),
{
    law_decimal_text_reads_back(n);
}

/// `u64` reads the decimal text of exactly the integers from 0 to `u64::MAX` and gives
/// each back; the text of a negative integer is refused.
pub proof fn law_u64_reads_its_range(n: int)
    ensures
        <u64 as FromValue>::accepts(decimal_text(n)) <==> 0 <= n <= u64::MAX,
        0 <= n <= u64::MAX ==> <u64 as FromValue>::denotes(decimal_text(n), n as u64),
{
    law_decimal_text_reads_back(n);
}

/// `usize` reads the decimal text of exactly the integers from 0 to `usize::MAX` and gives
/// each back; the text of a negative integer is refused.
pub proof fn law_usize_reads_its_range(n: int)
    ensures
        <usize as FromValue>::accepts(decimal_text(n)) <==> 0 <= n <= usize::MAX,
        0 <= n <= usize::MAX ==> <usize as FromValue>::denotes(decimal_text(n), n as usize),
{
    law_decimal_text_reads_back(n);
}

/// A boolean is read from `true` or `false`, and an accepted text is exactly how the
/// boolean it denotes is written.
pub proof fn law_bool_reads_its_names(t: Seq<char>, b: bool)
    ensures
        <bool as FromValue>::accepts("true"@) && <bool as FromValue>::denotes("true"@, true),
        <bool as FromValue>::accepts("false"@) && <bool as FromValue>::denotes("false"@, false),
        <bool as FromValue>::accepts(t) && <bool as FromValue>::denotes(t, b) ==> t == (if b {
            "true"@
        } else {
            "false"@
        }),
{
    reveal_strlit("true");
    reveal_strlit("false");
    assert("true"@.len() != "false"@.len());
}

/// A character is read from a text of exactly that one character.
pub proof fn law_char_reads_one_character(t: Seq<char>, c: char)
    ensures
        <char as FromValue>::accepts(seq![c]) && <char as FromValue>::denotes(seq![c], c),
        <char as FromValue>::accepts(t) && <char as FromValue>::denotes(t, c) ==> t == seq![c],
{
    if <char as FromValue>::accepts(t) && <char as FromValue>::denotes(t, c) {
        assert(t =~= seq![c]);
    }
}

/// Any text is read as a string, and the string is that text.
pub proof fn law_string_reads_any_text(t: Seq<char>, s: String)
    ensures
        <String as FromValue>::accepts(t),
        <String as FromValue>::denotes(t, s) <==> s@ == t,
{
}

/// The value of an option with nothing attached is the next argument, whatever it looks
/// like (`-`, `--x`, anything): it is handed out exactly, and reading moves past it.
pub proof fn law_value_takes_next_argument(m: ParserModel, display: Seq<u8>)
    requires
        m.last == (LastModel::Option { display, taken: false }),
        m.pending is Idle,
        m.pos < m.args.len(),
    ensures
        take_value_model(m).0 == Ok::<Seq<u8>, crate::error::ErrorModel>(m.args[m.pos]),
        take_value_model(m).1.pos == m.pos + 1,
        take_value_model(m).1.args == m.args,
        take_value_model(m).1.done == m.done,
        take_value_model(m).1.pending is Idle,
        take_value_model(m).1.last == (LastModel::Option { display, taken: true }),
{
}

/// A value is reported missing exactly when the last item is an option whose value is
/// unread, nothing of it is left and no argument follows; the error names the option.
/// Any failure leaves the parser as it was.
pub proof fn law_value_missing_only_at_end(m: ParserModel)
    ensures
        take_value_model(m).0 is Err ==> take_value_model(m).1 == m,
        (take_value_model(m).0 matches Err(e) && e.kind == ErrorKind::MissingValue) <==> (
        m.last matches LastModel::Option { taken, .. } && !taken && m.pending is Idle && m.pos
            >= m.args.len()),
        m.last matches LastModel::Option { display, taken } ==> (!taken && m.pending is Idle
            && m.pos >= m.args.len() ==> take_value_model(m).0 == Err::<
            Seq<u8>,
            crate::error::ErrorModel,
        >(error_model(ErrorKind::MissingValue, Some(display)))),
{
}

/// The value of a short option followed by more of its cluster (`-p8080`, `-p=8080`) is
/// the rest of the cluster, without one leading `=`; the following argument is not read.
pub proof fn law_value_of_cluster_rest(m: ParserModel, arg: int, offset: int, display: Seq<u8>)
    requires
        m.last == (LastModel::Option { display, taken: false }),
        m.pending == (PendingModel::Cluster { arg, offset }),
    ensures
        take_value_model(m).0 matches Ok(r) && ({
            let rest = m.args[arg].skip(offset);
            if rest.len() > 0 && rest[0] == EQUALS {
                rest == seq![EQUALS] + r
            } else {
                r == rest
            }
        }),
        take_value_model(m).1.pos == m.pos,
        take_value_model(m).1.pending is Idle,
{
    let rest = m.args[arg].skip(offset);
    if rest.len() > 0 && rest[0] == EQUALS {
        assert(rest =~= seq![EQUALS] + rest.skip(1));
    }
}

/// An optional value is never reported missing: when the last item is an option whose
/// value is unread and no argument follows, the optional value is `None`, the value counts
/// as read, and nothing else changes.
pub proof fn law_optional_value_without_arguments(m: ParserModel, display: Seq<u8>)
    requires
        m.last == (LastModel::Option { display, taken: false }),
        m.pending is Idle,
        m.pos >= m.args.len(),
    ensures
        take_value_opt_model(m).0 == Ok::<Option<Seq<u8>>, crate::error::ErrorModel>(None),
        take_value_opt_model(m).1 == (ParserModel {
            last: LastModel::Option { display, taken: true },
            ..m
        }),
{
}

/// Taking an optional value fails only where taking a value fails for want of an option
/// (`ValueUnavailable`), with the same error and leaving the parser as it was; when it
/// finds a value, taking a value would have found the same value and reached the same
/// state.
pub proof fn law_optional_value_agrees_with_value(m: ParserModel)
    ensures
        take_value_opt_model(m).0 is Err <==> (take_value_model(m).0 matches Err(e) && e.kind
            == ErrorKind::ValueUnavailable),
        take_value_opt_model(m).0 matches Err(e) ==> e.kind == ErrorKind::ValueUnavailable
            && take_value_model(m).0 == Err::<Seq<u8>, crate::error::ErrorModel>(e)
            && take_value_opt_model(m).1 == m,
        take_value_opt_model(m).0 matches Ok(Some(v)) ==> take_value_model(m) == (
            Ok::<Seq<u8>, crate::error::ErrorModel>(v),
            take_value_opt_model(m).1,
        ),
{
}

/// For an option whose value is unread, the optional value is `None` exactly when nothing
/// of its argument is left and the next argument is absent or (before `--`) looks like an
/// option; then that argument stays unread. Otherwise the value is found.
pub proof fn law_optional_value_declines_only_options(m: ParserModel, display: Seq<u8>)
    requires
        m.last == (LastModel::Option { display, taken: false }),
    ensures
        take_value_opt_model(m).0 is Ok,
        take_value_opt_model(m).0 == Ok::<Option<Seq<u8>>, crate::error::ErrorModel>(None) <==> (
        m.pending is Idle && (m.pos >= m.args.len() || (!m.done && option_like(m.args[m.pos])))),
        take_value_opt_model(m).0 == Ok::<Option<Seq<u8>>, crate::error::ErrorModel>(None)
            ==> take_value_opt_model(m).1.pos == m.pos,
        m.pending is Idle && m.pos < m.args.len() && (m.done || !option_like(m.args[m.pos]))
            ==> take_value_opt_model(m).0 == Ok::<Option<Seq<u8>>, crate::error::ErrorModel>(
            Some(m.args[m.pos]),
        ) && take_value_opt_model(m).1.pos == m.pos + 1,
        take_value_opt_model(m).1.last == (LastModel::Option { display, taken: true }),
{
}

proof fn lemma_first_occurrence<A>(s: Seq<A>, x: A, i: int, e: int)
    requires
        0 <= i <= e <= s.len(),
        e < s.len() ==> s[e] == x,
        forall|j: int| i <= j < e ==> s[j] != x,
    ensures
        first_from(s, x, i) == e,
    decreases e - i,
{
    if i < e {
        lemma_first_occurrence(s, x, i + 1, e);
    }
}

/// A text that is a key, the separator and a value, where the key holds no separator, is
/// split into exactly that key and value; the value may be empty, and may itself hold the
/// separator. With a non-empty key required, an empty key is refused with `InvalidValue`.
pub proof fn law_split_at_first_separator(
    raw: Seq<u8>,
    sep: char,
    key: Seq<char>,
    value: Seq<char>,
)
    requires
        valid_utf8(raw),
        decode_utf8(raw) == key + seq![sep] + value,
        !key.contains(sep),
    ensures
        split_text(raw, sep, false) == Ok::<(Seq<char>, Seq<char>), crate::error::ErrorModel>(
            (key, value),
        ),
        key.len() > 0 ==> split_text(raw, sep, true) == Ok::<
            (Seq<char>, Seq<char>),
            crate::error::ErrorModel,
        >((key, value)),
        key.len() == 0 ==> split_text(raw, sep, true) == Err::<
            (Seq<char>, Seq<char>),
            crate::error::ErrorModel,
        >(error_model(ErrorKind::InvalidValue, Some(raw))),
{
    let t = decode_utf8(raw);
    let k = key.len() as int;
    assert(t[k] == sep);
    assert forall|j: int| 0 <= j < k implies t[j] != sep by {
        assert(t[j] == key[j]);
    }
    lemma_first_occurrence(t, sep, 0, k);
    assert(t.take(k) =~= key);
    assert(t.skip(k + 1) =~= value);
}

/// Splitting fails with `InvalidValue` when the separator does not occur in the text, and
/// with `InvalidUtf8` when the value is not text; the error names the value.
pub proof fn law_split_without_separator(raw: Seq<u8>, sep: char, nonempty_key: bool)
    ensures
        valid_utf8(raw) && !decode_utf8(raw).contains(sep) ==> split_text(
            raw,
            sep,
            nonempty_key,
        ) == Err::<(Seq<char>, Seq<char>), crate::error::ErrorModel>(
            error_model(ErrorKind::InvalidValue, Some(raw)),
        ),
        !valid_utf8(raw) ==> split_text(raw, sep, nonempty_key) == Err::<
            (Seq<char>, Seq<char>),
            crate::error::ErrorModel,
        >(error_model(ErrorKind::InvalidUtf8, Some(raw))),
{
    if valid_utf8(raw) && !decode_utf8(raw).contains(sep) {
        let t = decode_utf8(raw);
        assert forall|j: int| 0 <= j < t.len() implies t[j] != sep by {
            if t[j] == sep {
                assert(t.contains(sep));
            }
        }
        lemma_first_occurrence(t, sep, 0, t.len() as int);
    }
}

/// Help text is the line `usage: ` and the usage, then each section in order, each
/// preceded by an empty line and written as its heading line and its body line: adding
/// a section at the end adds exactly its text, whatever number of sections came before.
pub proof fn law_help_text_by_sections(
    usage: Seq<char>,
    sections: Seq<(Seq<char>, Seq<char>)>,
    heading: Seq<char>,
    body: Seq<char>,
)
    ensures
        help_text((usage, Seq::<(Seq<char>, Seq<char>)>::empty())) == seq![
            'u',
            's',
            'a',
            'g',
            'e',
            ':',
            ' ',
        ] + usage + seq!['\n'],
        help_text((usage, sections.push((heading, body)))) == help_text((usage, sections))
            + seq!['\n'] + heading + seq!['\n'] + body + seq!['\n'],
        section_text((heading, body)) == heading + seq!['\n'] + body + seq!['\n'],
{
    assert(sections.push((heading, body)).drop_last() =~= sections);
    assert(help_text((usage, Seq::<(Seq<char>, Seq<char>)>::empty())) =~= seq![
        'u',
        's',
        'a',
        'g',
        'e',
        ':',
        ' ',
    ] + usage + seq!['\n']);
    assert(help_text((usage, sections.push((heading, body)))) =~= help_text((usage, sections))
        + seq!['\n'] + heading + seq!['\n'] + body + seq!['\n']);
}

/// Raw bytes that encode a text read back as that text, and they read as a `T` exactly
/// when that text does (a text it refuses is an `InvalidValue`); bytes that are not UTF-8 are refused with `InvalidUtf8`.
pub proof fn law_raw_text_reads_as_its_text<T: FromValue>(cs: Seq<char>, raw: Seq<u8>)
    ensures
        text_of(encode_utf8(cs)) == Ok::<Seq<char>, crate::error::ErrorModel>(cs),
        parses::<T>(encode_utf8(cs)) <==> T::accepts(cs),
        parse_error(encode_utf8(cs)) == error_model(ErrorKind::InvalidValue, Some(encode_utf8(cs))),
        !valid_utf8(raw) ==> text_of(raw) == Err::<Seq<char>, crate::error::ErrorModel>(
            error_model(ErrorKind::InvalidUtf8, Some(raw)),
        ) && !parses::<T>(raw) && parse_error(raw) == error_model(
            ErrorKind::InvalidUtf8,
            Some(raw),
        ),
{
    encode_utf8_valid_utf8(cs);
    encode_utf8_decode_utf8(cs);
}

} // verus!
