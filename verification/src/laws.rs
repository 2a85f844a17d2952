//! Properties of the parser and its helpers that hold across calls.
use vstd::prelude::*;
use vstd::utf8::*;
use crate::arg::{Token, first_from, split_text};
use crate::parser::{
    ParserModel, PendingModel, char_width, first_char, initial_model, is_sentinel, last_argument,
    model_wf, next_model, option_like, remaining_model, take_value_model, take_value_opt_model,
    unavailable,
};
use crate::standard::{Flag, classify_token, flag_matches};
use crate::text::{DASH, EQUALS};

verus! {

/// The parser model after `k` items have been read.
pub open spec fn after_next(m: ParserModel, k: nat) -> ParserModel
    decreases k,
{
    if k == 0 {
        m
    } else {
        next_model(after_next(m, (k - 1) as nat)).1
    }
}

/// The bytes left after the first `k` characters of `s`.
spec fn drop_scalars(s: Seq<u8>, k: nat) -> Seq<u8>
    decreases k,
{
    if k == 0 {
        s
    } else {
        pop_first_scalar(drop_scalars(s, (k - 1) as nat))
    }
}

proof fn lemma_drop_scalars(s: Seq<u8>, k: nat)
    requires
        valid_utf8(s),
        k <= decode_utf8(s).len(),
    ensures
        valid_utf8(drop_scalars(s, k)),
        drop_scalars(s, k).len() <= s.len(),
        drop_scalars(s, k) =~= s.skip(s.len() - drop_scalars(s, k).len()),
        decode_utf8(drop_scalars(s, k)) =~= decode_utf8(s).skip(k as int),
    decreases k,
{
    if k == 0 {
        assert(s.skip(0) =~= s);
    } else {
        let k1 = (k - 1) as nat;
        lemma_drop_scalars(s, k1);
        let d = drop_scalars(s, k1);
        assert(decode_utf8(d).len() > 0);
        assert(d.len() != 0);
        let w = length_of_first_scalar(d);
        let p = pop_first_scalar(d);
        assert(p =~= d.skip(w));
        assert(decode_utf8(d) =~= seq![decode_first_scalar(d) as char] + decode_utf8(p));
        assert(decode_utf8(p) =~= decode_utf8(d).skip(1));
        assert(decode_utf8(s).skip(k1 as int).skip(1) =~= decode_utf8(s).skip(k as int));
    }
}

proof fn lemma_first_scalar_width(rest: Seq<u8>)
    requires
        valid_utf8(rest),
        rest.len() > 0,
    ensures
        char_width(rest) == length_of_first_scalar(rest),
        first_char(rest) == decode_first_scalar(rest) as char,
{
    let w = length_of_first_scalar(rest);
    assert(1 <= w <= rest.len());
    assert forall|j: int| 1 <= j < w implies !valid_utf8(#[trigger] rest.take(j)) by {
        assert(rest.take(j)[0] == rest[0]);
    }
    let t = rest.take(w);
    assert(t[0] == rest[0]);
    assert(w >= 2 ==> t[1] == rest[1]);
    assert(w >= 3 ==> t[2] == rest[2]);
    assert(w >= 4 ==> t[3] == rest[3]);
    assert(valid_first_scalar(t));
    assert(length_of_first_scalar(t) == w);
    assert(pop_first_scalar(t) =~= Seq::<u8>::empty());
    assert(valid_utf8(Seq::<u8>::empty()));
    assert(valid_utf8(t));
    assert(decode_utf8(pop_first_scalar(t)) =~= Seq::<char>::empty());
    assert(decode_utf8(t) =~= seq![decode_first_scalar(t) as char]);
}

proof fn lemma_cluster_step(s: Seq<u8>, rest: Seq<Seq<u8>>, k: nat)
    requires
        s.len() > 0,
        s[0] != DASH,
        valid_utf8(s),
        1 <= k <= decode_utf8(s).len(),
    ensures
        ({
            let m = after_next(initial_model(seq![seq![DASH] + s] + rest), k);
            &&& m.args == seq![seq![DASH] + s] + rest
            &&& m.pos == 1
            &&& !m.done
            &&& m.pending == (if k < decode_utf8(s).len() {
                PendingModel::Cluster {
                    arg: 0,
                    offset: 1 + s.len() - drop_scalars(s, k).len(),
                }
            } else {
                PendingModel::Idle
            })
            &&& next_model(after_next(initial_model(seq![seq![DASH] + s] + rest), (k - 1) as nat)).0
                == Ok::<Option<Token>, crate::error::ErrorModel>(
                Some(Token::Short(decode_utf8(s)[k - 1])),
            )
        }),
    decreases k,
{
    let args = seq![seq![DASH] + s] + rest;
    let a = seq![DASH] + s;
    assert(args[0] == a);
    let k1 = (k - 1) as nat;
    lemma_drop_scalars(s, k1);
    lemma_drop_scalars(s, k);
    let d = drop_scalars(s, k1);
    assert(decode_utf8(d).len() > 0);
    assert(d.len() != 0);
    lemma_first_scalar_width(d);
    assert(decode_utf8(d) =~= seq![decode_first_scalar(d) as char] + decode_utf8(
        pop_first_scalar(d),
    ));
    assert(decode_utf8(d)[0] == decode_utf8(s)[k1 as int]);
    let o = 1 + s.len() - d.len();
    assert(a.skip(o) =~= d);
    assert(drop_scalars(s, k).len() == d.len() - length_of_first_scalar(d));
    assert(drop_scalars(s, k).len() == 0 <==> k == decode_utf8(s).len());
    if k == 1 {
        let m0 = initial_model(args);
        assert(after_next(m0, 0) == m0);
        assert(option_like(a));
        assert(!is_sentinel(a));
        assert(a[1] == s[0]);
    } else {
        lemma_cluster_step(s, rest, k1);
    }
}

/// A cluster of short options such as `-abc` is read one option at a time: the `k`-th
/// item read is the `k`-th character, and once the cluster is exhausted the next item
/// starts with the following argument.
pub proof fn law_short_cluster_one_by_one(s: Seq<u8>, rest: Seq<Seq<u8>>, k: nat)
    requires
        s.len() > 0,
        s[0] != DASH,
        valid_utf8(s),
        k < decode_utf8(s).len(),
    ensures
        next_model(after_next(initial_model(seq![seq![DASH] + s] + rest), k)).0 == Ok::<
            Option<Token>,
            crate::error::ErrorModel,
        >(Some(Token::Short(decode_utf8(s)[k as int]))),
        after_next(initial_model(seq![seq![DASH] + s] + rest), decode_utf8(s).len()).pos == 1,
        after_next(
            initial_model(seq![seq![DASH] + s] + rest),
            decode_utf8(s).len(),
        ).pending is Idle,
{
    lemma_cluster_step(s, rest, k + 1);
    lemma_cluster_step(s, rest, decode_utf8(s).len());
}

/// After `--`, every argument is a positional value, whatever it looks like: the argument
/// that follows `--` is handed out unchanged, and so is every later one.
pub proof fn law_sentinel_makes_values(m: ParserModel)
    requires
        model_wf(m),
        m.pending is Idle,
        m.pos < m.args.len(),
    ensures
        is_sentinel(m.args[m.pos]) && !m.done && m.pos + 1 < m.args.len() ==> next_model(m).0
            == Ok::<Option<Token>, crate::error::ErrorModel>(
            Some(Token::Value(m.args[m.pos + 1])),
        ) && next_model(m).1.done,
        m.done ==> next_model(m).0 == Ok::<Option<Token>, crate::error::ErrorModel>(
            Some(Token::Value(m.args[m.pos])),
        ) && next_model(m).1.done,
{
    if is_sentinel(m.args[m.pos]) {
        assert(option_like(m.args[m.pos]));
    }
}

/// A positional value is handed out exactly as given, whether or not it is valid UTF-8.
pub proof fn law_positional_passthrough(m: ParserModel)
    requires
        model_wf(m),
        m.pending is Idle,
        m.pos < m.args.len(),
        !option_like(m.args[m.pos]),
    ensures
        next_model(m).0 == Ok::<Option<Token>, crate::error::ErrorModel>(
            Some(Token::Value(m.args[m.pos])),
        ),
        next_model(m).1.pos == m.pos + 1,
{
}

/// Reading never changes the arguments themselves.
pub proof fn law_arguments_unchanged(m: ParserModel)
    ensures
        next_model(m).1.args == m.args,
        take_value_model(m).1.args == m.args,
        take_value_opt_model(m).1.args == m.args,
{
}

/// A long option written `--name=value` is read as the option `name`, and the value read
/// for it is exactly `value`.
pub proof fn law_long_option_attached_value(m: ParserModel, name: Seq<u8>, value: Seq<u8>)
    requires
        model_wf(m),
        m.pending is Idle,
        !m.done,
        m.pos < m.args.len(),
        m.args[m.pos] == seq![DASH, DASH] + name + seq![EQUALS] + value,
        name.len() > 0,
        valid_utf8(name),
        forall|i: int| 0 <= i < name.len() ==> #[trigger] name[i] != EQUALS,
    ensures
        next_model(m).0 == Ok::<Option<Token>, crate::error::ErrorModel>(
            Some(Token::Long(decode_utf8(name))),
        ),
        take_value_model(next_model(m).1).0 == Ok::<Seq<u8>, crate::error::ErrorModel>(value),
{
    let a = m.args[m.pos];
    let e: int = name.len() as int + 2;
    assert(a[0] == DASH && a[1] == DASH);
    assert(option_like(a));
    assert(!is_sentinel(a));
    assert forall|i: int| 2 <= i < e implies first_from(a, EQUALS, i) == e by {
        lemma_first_from_skips(a, EQUALS, i, e);
    }
    assert(a[e] == EQUALS);
    assert(first_from(a, EQUALS, e) == e);
    assert(first_from(a, EQUALS, 2) == e);
    assert(a.subrange(2, e) =~= name);
    assert(a.skip(e + 1) =~= value);
}

proof fn lemma_first_from_skips(a: Seq<u8>, x: u8, i: int, e: int)
    requires
        0 <= i <= e < a.len(),
        a[e] == x,
        forall|j: int| i <= j < e ==> a[j] != x,
    ensures
        first_from(a, x, i) == e,
    decreases e - i,
{
    if i < e {
        lemma_first_from_skips(a, x, i + 1, e);
    }
}

/// Before anything is read, the remaining arguments are all of them.
pub proof fn law_fresh_parser_remaining(args: Seq<Seq<u8>>)
    ensures
        remaining_model(initial_model(args)) == args,
{
    assert(args.skip(0) =~= args);
    assert(Seq::<Seq<u8>>::empty() + args =~= args);
}

/// When an option has no optional value, the argument that follows is left unread: it is
/// still among the remaining arguments, and the next item starts with it.
pub proof fn law_optional_value_leaves_next_unread(m: ParserModel)
    requires
        model_wf(m),
        take_value_opt_model(m).0 == Ok::<Option<Seq<u8>>, crate::error::ErrorModel>(None),
    ensures
        take_value_opt_model(m).1.pos == m.pos,
        take_value_opt_model(m).1.pending is Idle,
        remaining_model(take_value_opt_model(m).1) == m.args.skip(m.pos),
{
    assert(Seq::<Seq<u8>>::empty() + m.args.skip(m.pos) =~= m.args.skip(m.pos));
}

/// A value taken from the rest of a short-option cluster (as in `-p8080`) does not consume
/// the following argument.
pub proof fn law_short_tail_value_keeps_next(m: ParserModel)
    requires
        model_wf(m),
        m.pending is Cluster,
    ensures
        take_value_model(m).1.pos == m.pos,
        take_value_opt_model(m).1.pos == m.pos,
{
}

/// An option's value can be taken once: after it has been taken, asking again fails with
/// `ValueUnavailable`, naming the option, and changes nothing.
pub proof fn law_value_taken_once(m: ParserModel)
    requires
        model_wf(m),
        take_value_model(m).0 is Ok,
    ensures
        take_value_model(take_value_model(m).1).0 == Err::<Seq<u8>, crate::error::ErrorModel>(
            unavailable(take_value_model(m).1),
        ),
        take_value_model(take_value_model(m).1).1 == take_value_model(m).1,
        unavailable(take_value_model(m).1).argument == last_argument(m),
{
}

/// Splitting at the first separator loses nothing: the text is the key, the separator and
/// the value; the key holds no separator, and it is non-empty when one is required.
pub proof fn law_split_reconstructs(raw: Seq<u8>, sep: char, nonempty_key: bool)
    requires
        split_text(raw, sep, nonempty_key) is Ok,
    ensures
        ({
            let (key, value) = split_text(raw, sep, nonempty_key)->Ok_0;
            &&& decode_utf8(raw) == key + seq![sep] + value
            &&& !key.contains(sep)
            &&& nonempty_key ==> key.len() > 0
        }),
{
    let t = decode_utf8(raw);
    let i = first_from(t, sep, 0);
    lemma_first_from_is_first(t, sep, 0);
    assert(t =~= t.take(i) + seq![sep] + t.skip(i + 1));
    if t.take(i).contains(sep) {
        let j = choose|j: int| 0 <= j < t.take(i).len() && t.take(i)[j] == sep;
        assert(t[j] == sep);
    }
}

proof fn lemma_first_from_is_first<A>(s: Seq<A>, x: A, i: int)
    requires
        0 <= i,
    ensures
        first_from(s, x, i) < s.len() ==> s[first_from(s, x, i)] == x,
        i <= s.len() ==> i <= first_from(s, x, i) <= s.len(),
        forall|j: int| i <= j < first_from(s, x, i) ==> s[j] != x,
    decreases s.len() - i,
{
    if i < s.len() && s[i] != x {
        lemma_first_from_is_first(s, x, i + 1);
    }
}

/// An item is classified as a standard flag exactly when it is that flag's short or long
/// form.
pub proof fn law_classify_matches(t: Token, f: Flag)
    ensures
        classify_token(t) == Some(f) <==> flag_matches(f, t),
{
    reveal_strlit("help");
    reveal_strlit("version");
    assert("help"@.len() != "version"@.len());
}

/// Every step of the parser keeps its model consistent: positions stay inside the
/// arguments, and a pending cluster or attached value always belongs to an option whose
/// value is unread.
pub proof fn law_steps_keep_consistency(m: ParserModel)
    requires
        model_wf(m),
    ensures
        model_wf(next_model(m).1),
        model_wf(take_value_model(m).1),
        model_wf(take_value_opt_model(m).1),
{
    match m.pending {
        PendingModel::Cluster { arg, offset } => {
            lemma_char_width_bound(m.args[arg].skip(offset));
        },
        PendingModel::Idle => {
            if m.pos < m.args.len() {
                let a = m.args[m.pos];
                lemma_char_width_bound(a.skip(1));
                lemma_first_from_is_first(a, EQUALS, 2);
            }
        },
        _ => {},
    }
}

proof fn lemma_char_width_bound(rest: Seq<u8>)
    ensures
        0 <= char_width(rest) <= rest.len(),
        rest.len() == 0 ==> char_width(rest) == 0,
{
}

} // verus!
