//! Whitespace tokenization shared by the wire-protocol dialects.
//!
//! Input lines are trimmed of surrounding whitespace and split on runs of
//! whitespace; serialization joins tokens back with single spaces.

use vstd::prelude::*;

verus! {

/// The whitespace characters the wire protocol recognizes.
pub open spec fn is_ws(c: char) -> bool {
    c == ' ' || c == '\t' || c == '\n' || c == '\r'
}

/// Tokenization with an accumulator: `cur` holds the token being read.
pub open spec fn toks(s: Seq<char>, cur: Seq<char>) -> Seq<Seq<char>>
    decreases s.len(),
{
    if s.len() == 0 {
        if cur.len() == 0 {
            Seq::empty()
        } else {
            seq![cur]
        }
    } else if is_ws(s[0]) {
        if cur.len() == 0 {
            toks(s.drop_first(), Seq::empty())
        } else {
            seq![cur] + toks(s.drop_first(), Seq::empty())
        }
    } else {
        toks(s.drop_first(), cur.push(s[0]))
    }
}

/// The tokens of a line: surrounding whitespace dropped, inner runs of
/// whitespace collapsed into separators.
pub open spec fn tokens_of(s: Seq<char>) -> Seq<Seq<char>> {
    toks(s, Seq::empty())
}

/// A well-formed token: nonempty and free of whitespace.
pub open spec fn is_token(t: Seq<char>) -> bool {
    t.len() > 0 && (forall|i: int| 0 <= i < t.len() ==> !is_ws(t[i]))
}

/// Tokens rejoined with single spaces.
pub open spec fn join(ts: Seq<Seq<char>>) -> Seq<char>
    decreases ts.len(),
{
    if ts.len() == 0 {
        Seq::empty()
    } else if ts.len() == 1 {
        ts[0]
    } else {
        join(ts.drop_last()) + seq![' '] + ts.last()
    }
}

/// A value is normalized when rejoining its tokens gives it back unchanged:
/// no surrounding whitespace, single spaces inside.
pub open spec fn is_normalized(v: Seq<char>) -> bool {
    v == join(tokens_of(v))
}

fn is_ws_char(c: char) -> (r: bool)
    ensures
        r == is_ws(c),
{
    c == ' ' || c == '\t' || c == '\n' || c == '\r'
}

/// Split a line into its whitespace-separated tokens.
pub fn tokenize(input: &str) -> (r: Vec<String>)
    ensures
        r.deep_view() == tokens_of(input@),
{
    let n = input.unicode_len();
    let mut out: Vec<String> = Vec::new();
    let mut i: usize = 0;
    let mut start: usize = 0;
    proof {
        assert(input@.skip(0) =~= input@);
        assert(input@.subrange(0, 0) =~= Seq::<char>::empty());
        assert(out.deep_view() + toks(input@, Seq::empty()) =~= toks(input@, Seq::empty()));
    }
    while i < n
        invariant
            n == input@.len(),
            start <= i <= n,
            tokens_of(input@) == out.deep_view() + toks(
                input@.skip(i as int),
                input@.subrange(start as int, i as int),
            ),
        decreases n - i,
    {
        let c = input.get_char(i);
        if is_ws_char(c) {
            if start < i {
                let t = input.substring_char(start, i).to_owned();
                let ghost pre = out.deep_view();
                out.push(t);
                proof {
                    assert(input@.skip(i as int).drop_first() =~= input@.skip(i + 1));
                    assert(out.deep_view() =~= pre.push(t@));
                    assert(pre + (seq![t@] + toks(input@.skip(i + 1), Seq::empty()))
                        =~= pre.push(t@) + toks(input@.skip(i + 1), Seq::empty()));
                }
            } else {
                proof {
                    assert(input@.skip(i as int).drop_first() =~= input@.skip(i + 1));
                    assert(input@.subrange(start as int, i as int) =~= Seq::<char>::empty());
                }
            }
            start = i + 1;
            proof {
                assert(input@.subrange(start as int, i + 1) =~= Seq::<char>::empty());
            }
        } else {
            proof {
                assert(input@.skip(i as int).drop_first() =~= input@.skip(i + 1));
                assert(input@.subrange(start as int, i as int).push(input@[i as int])
                    =~= input@.subrange(start as int, i + 1));
            }
        }
        i = i + 1;
    }
    if start < n {
        let t = input.substring_char(start, n).to_owned();
        let ghost pre = out.deep_view();
        out.push(t);
        proof {
            assert(input@.skip(n as int) =~= Seq::<char>::empty());
            assert(out.deep_view() =~= pre.push(t@));
            assert(pre + seq![t@] =~= pre.push(t@));
        }
    } else {
        proof {
            assert(input@.skip(n as int) =~= Seq::<char>::empty());
            assert(input@.subrange(start as int, n as int) =~= Seq::<char>::empty());
            assert(out.deep_view() + Seq::<Seq<char>>::empty() =~= out.deep_view());
        }
    }
    out
}

/// Character-by-character string comparison.
pub fn str_eq(a: &str, b: &str) -> (r: bool)
    ensures
        r == (a@ == b@),
{
    let n = a.unicode_len();
    let m = b.unicode_len();
    if n != m {
        return false;
    }
    let mut i: usize = 0;
    while i < n
        invariant
            n == a@.len() && n == b@.len(),
            i <= n,
            forall|j: int| 0 <= j < i ==> a@[j] == b@[j],
        decreases n - i,
    {
        if a.get_char(i) != b.get_char(i) {
            return false;
        }
        i = i + 1;
    }
    proof {
        assert(a@ =~= b@);
    }
    true
}

/// Join the tokens from index `from` on with single spaces.
pub fn join_from(tokens: &Vec<String>, from: usize) -> (r: String)
    requires
        from < tokens@.len(),
    ensures
        r@ == join(tokens.deep_view().skip(from as int)),
{
    let ghost ts = tokens.deep_view();
    let total = tokens.len();
    let mut r = tokens[from].clone();
    proof {
        assert(ts.subrange(from as int, from + 1).drop_last() =~= Seq::<Seq<char>>::empty());
        assert(r@ == ts.subrange(from as int, from + 1)[0]);
        assert(r@ =~= join(ts.subrange(from as int, from + 1)));
    }
    let mut i: usize = from + 1;
    while i < total
        invariant
            total == tokens@.len(),
            from < i <= tokens@.len(),
            ts == tokens.deep_view(),
            r@ == join(ts.subrange(from as int, i as int)),
        decreases tokens@.len() - i,
    {
        r.append(" ");
        r.append(tokens[i].as_str());
        proof {
            reveal_strlit(" ");
            assert(ts.subrange(from as int, i + 1).drop_last() =~= ts.subrange(
                from as int,
                i as int,
            ));
            assert(ts.subrange(from as int, i + 1).last() == ts[i as int]);
        }
        i = i + 1;
    }
    proof {
        assert(ts.subrange(from as int, ts.len() as int) =~= ts.skip(from as int));
    }
    r
}

/// Prepending whitespace-free characters extends the token being read.
pub proof fn lemma_toks_nonws(t: Seq<char>, rest: Seq<char>, cur: Seq<char>)
    requires
        forall|i: int| 0 <= i < t.len() ==> !is_ws(t[i]),
    ensures
        toks(t + rest, cur) == toks(rest, cur + t),
    decreases t.len(),
{
    if t.len() == 0 {
        assert(t + rest =~= rest);
        assert(cur + t =~= cur);
    } else {
        assert((t + rest)[0] == t[0]);
        assert((t + rest).drop_first() =~= t.drop_first() + rest);
        lemma_toks_nonws(t.drop_first(), rest, cur.push(t[0]));
        assert(cur.push(t[0]) =~= cur + seq![t[0]]);
        assert(cur + seq![t[0]] + t.drop_first() =~= cur + t);
    }
}

/// A token followed by a space starts the token list: the token is emitted
/// and tokenization goes on after the space.
pub proof fn lemma_tokens_sep(t: Seq<char>, rest: Seq<char>)
    requires
        is_token(t),
    ensures
        tokens_of(t + seq![' '] + rest) == seq![t] + tokens_of(rest),
{
    assert(t + seq![' '] + rest =~= t + (seq![' '] + rest));
    lemma_toks_nonws(t, seq![' '] + rest, Seq::empty());
    assert(Seq::<char>::empty() + t =~= t);
    assert((seq![' '] + rest)[0] == ' ');
    assert((seq![' '] + rest).drop_first() =~= rest);
}

/// A single token tokenizes to itself alone.
pub proof fn lemma_token_alone(t: Seq<char>)
    requires
        is_token(t),
    ensures
        tokens_of(t) == seq![t],
{
    assert(t =~= t + Seq::<char>::empty());
    lemma_toks_nonws(t, Seq::empty(), Seq::empty());
    assert(Seq::<char>::empty() + t =~= t);
}

/// The tokens of `verb key value` are the verb, the key, then the value's
/// own tokens.
pub proof fn lemma_roundtrip_keyed_value(verb: Seq<char>, key: Seq<char>, value: Seq<char>)
    requires
        is_token(verb),
        is_token(key),
    ensures
        tokens_of(verb + seq![' '] + (key + seq![' '] + value)) == seq![verb, key] + tokens_of(
            value,
        ),
{
    lemma_tokens_sep(verb, key + seq![' '] + value);
    lemma_tokens_sep(key, value);
    assert(seq![verb] + (seq![key] + tokens_of(value)) =~= seq![verb, key] + tokens_of(value));
}

} // verus!
