//! Whitespace tokenization and line trimming: the shared textual ground of
//! the log-record format and the wire protocol. A line is split on ASCII
//! whitespace into tokens; keys and values are single tokens (the formats
//! have no escaping).

use vstd::prelude::*;

verus! {

/// ASCII whitespace: the characters a line is split and trimmed on.
pub open spec fn is_ws(c: char) -> bool {
    c == ' ' || c == '\t' || c == '\n' || c == '\r' || c == '\u{000C}'
}

/// Whitespace splitting of `s`, with `cur` the token accumulated so far.
pub open spec fn tokens_acc(s: Seq<char>, cur: Seq<char>) -> Seq<Seq<char>>
    decreases s.len(),
{
    if s.len() == 0 {
        if cur.len() == 0 {
            Seq::empty()
        } else {
            seq![cur]
        }
    } else if is_ws(s[0]) {
        if cur.len() == 0 {
            tokens_acc(s.drop_first(), Seq::empty())
        } else {
            seq![cur] + tokens_acc(s.drop_first(), Seq::empty())
        }
    } else {
        tokens_acc(s.drop_first(), cur.push(s[0]))
    }
}

/// The sequence of whitespace-separated tokens of `s`.
pub open spec fn tokens(s: Seq<char>) -> Seq<Seq<char>> {
    tokens_acc(s, Seq::empty())
}

/// A well-formed key or value: non-empty, with no embedded whitespace.
pub open spec fn valid_token(t: Seq<char>) -> bool {
    t.len() > 0 && (forall|i: int| 0 <= i < t.len() ==> !is_ws(t[i]))
}

/// `s` with leading whitespace removed.
pub open spec fn trim_front(s: Seq<char>) -> Seq<char>
    decreases s.len(),
{
    if s.len() > 0 && is_ws(s[0]) {
        trim_front(s.drop_first())
    } else {
        s
    }
}

/// `s` with trailing whitespace removed.
pub open spec fn trim_back(s: Seq<char>) -> Seq<char>
    decreases s.len(),
{
    if s.len() > 0 && is_ws(s.last()) {
        trim_back(s.drop_last())
    } else {
        s
    }
}

/// `s` with both leading and trailing whitespace removed.
pub open spec fn trimmed(s: Seq<char>) -> Seq<char> {
    trim_back(trim_front(s))
}

#[verifier::when_used_as_spec(is_ws)]
pub fn is_ws_char(c: char) -> (r: bool)
    ensures
        r == is_ws(c),
{
    c == ' ' || c == '\t' || c == '\n' || c == '\r' || c == '\u{000C}'
}

/// Relies on `String::push`: appends the given character to the end of the
/// string.
#[verifier::external_body]
fn push_char(s: &mut String, c: char)
    ensures
        final(s)@ == old(s)@ + seq![c],
{
    s.push(c)
}

/// Splits `s` into its whitespace-separated tokens, in order.
pub fn tokenize(s: &str) -> (r: Vec<String>)
    ensures
        r.deep_view() == tokens(s@),
{
    let n = s.unicode_len();
    let mut out: Vec<String> = Vec::new();
    let mut cur = String::new();
    let mut i: usize = 0;
    proof {
        assert(s@.skip(0) =~= s@);
        assert(out.deep_view() =~= Seq::<Seq<char>>::empty());
        assert(out.deep_view() + tokens_acc(s@.skip(0), cur@) =~= tokens(s@));
    }
    while i < n
        invariant
            i <= n,
            n == s@.len(),
            tokens(s@) == out.deep_view() + tokens_acc(s@.skip(i as int), cur@),
        decreases n - i,
    {
        let ghost rem = s@.skip(i as int);
        proof {
            assert(rem.len() == n - i);
            assert(rem[0] == s@[i as int]);
            assert(rem.drop_first() =~= s@.skip(i as int + 1));
        }
        let c = s.get_char(i);
        if is_ws_char(c) {
            if cur.as_str().is_empty() {
                proof {
                    assert(cur@ =~= Seq::<char>::empty());
                    assert(tokens_acc(rem, cur@) == tokens_acc(rem.drop_first(), Seq::empty()));
                }
            } else {
                let ghost prev_out = out.deep_view();
                let ghost cur_view = cur@;
                out.push(cur);
                cur = String::new();
                proof {
                    assert(out.deep_view() =~= prev_out.push(cur_view));
                    assert(tokens_acc(rem, cur_view) == seq![cur_view] + tokens_acc(
                        rem.drop_first(),
                        Seq::empty(),
                    ));
                    assert(prev_out.push(cur_view) + tokens_acc(rem.drop_first(), Seq::empty())
                        =~= prev_out + (seq![cur_view] + tokens_acc(
                        rem.drop_first(),
                        Seq::empty(),
                    )));
                }
            }
        } else {
            let ghost cur_view = cur@;
            push_char(&mut cur, c);
            proof {
                assert(cur@ =~= cur_view.push(rem[0]));
                assert(tokens_acc(rem, cur_view) == tokens_acc(rem.drop_first(), cur_view.push(
                    rem[0],
                )));
            }
        }
        i = i + 1;
    }
    proof {
        assert(s@.skip(n as int) =~= Seq::<char>::empty());
    }
    if cur.as_str().is_empty() {
        proof {
            assert(cur@.len() == 0);
            assert(tokens_acc(s@.skip(n as int), cur@) =~= Seq::<Seq<char>>::empty());
            assert(out.deep_view() + Seq::<Seq<char>>::empty() =~= out.deep_view());
        }
        out
    } else {
        let ghost prev_out = out.deep_view();
        let ghost cur_view = cur@;
        out.push(cur);
        proof {
            assert(tokens_acc(s@.skip(n as int), cur_view) =~= seq![cur_view]);
            assert(out.deep_view() =~= prev_out.push(cur_view));
            assert(prev_out + seq![cur_view] =~= prev_out.push(cur_view));
        }
        out
    }
}

/// Returns `s` with leading and trailing whitespace removed.
pub fn trim(s: &str) -> (r: String)
    ensures
        r@ == trimmed(s@),
{
    let n = s.unicode_len();
    let mut lo: usize = 0;
    proof {
        assert(s@.skip(0) =~= s@);
    }
    while lo < n && is_ws_char(s.get_char(lo))
        invariant
            lo <= n,
            n == s@.len(),
            trim_front(s@) == trim_front(s@.skip(lo as int)),
        decreases n - lo,
    {
        proof {
            let rem = s@.skip(lo as int);
            assert(rem[0] == s@[lo as int]);
            assert(rem.drop_first() =~= s@.skip(lo as int + 1));
        }
        lo = lo + 1;
    }
    proof {
        let rem = s@.skip(lo as int);
        if lo < n {
            assert(rem[0] == s@[lo as int]);
            assert(!is_ws(rem[0]));
        } else {
            assert(rem =~= Seq::<char>::empty());
        }
        assert(trim_front(s@) == rem);
    }
    let mut hi: usize = n;
    while hi > lo && is_ws_char(s.get_char(hi - 1))
        invariant
            lo <= hi <= n,
            n == s@.len(),
            trim_front(s@) == s@.skip(lo as int),
            trim_back(s@.skip(lo as int)) == trim_back(s@.subrange(lo as int, hi as int)),
        decreases hi,
    {
        proof {
            let part = s@.subrange(lo as int, hi as int);
            assert(part.last() == s@[hi as int - 1]);
            assert(part.drop_last() =~= s@.subrange(lo as int, hi as int - 1));
        }
        hi = hi - 1;
    }
    proof {
        let part = s@.subrange(lo as int, hi as int);
        if hi > lo {
            assert(part.last() == s@[hi as int - 1]);
            assert(!is_ws(part.last()));
        } else {
            assert(part =~= Seq::<char>::empty());
        }
        assert(trim_back(s@.subrange(lo as int, hi as int)) == part);
        assert(s@.skip(lo as int) =~= s@.subrange(lo as int, n as int));
    }
    let piece = s.substring_char(lo, hi);
    piece.to_owned()
}

/// A word of non-whitespace characters passes through `tokens_acc` whole:
/// it extends the token currently being accumulated.
pub proof fn lemma_tokens_acc_word(t: Seq<char>, rest: Seq<char>, cur: Seq<char>)
    requires
        forall|i: int| 0 <= i < t.len() ==> !is_ws(t[i]),
    ensures
        tokens_acc(t + rest, cur) == tokens_acc(rest, cur + t),
    decreases t.len(),
{
    if t.len() == 0 {
        assert(t + rest =~= rest);
        assert(cur + t =~= cur);
    } else {
        let s = t + rest;
        assert(s[0] == t[0]);
        assert(!is_ws(s[0]));
        assert(s.drop_first() =~= t.drop_first() + rest);
        lemma_tokens_acc_word(t.drop_first(), rest, cur.push(t[0]));
        assert(cur.push(t[0]) + t.drop_first() =~= cur + t);
    }
}

proof fn lemma_tokens_acc_all_valid(s: Seq<char>, cur: Seq<char>)
    requires
        forall|i: int| 0 <= i < cur.len() ==> !is_ws(cur[i]),
    ensures
        forall|i: int|
            0 <= i < tokens_acc(s, cur).len() ==> valid_token(#[trigger] tokens_acc(s, cur)[i]),
    decreases s.len(),
{
    let ts = tokens_acc(s, cur);
    if s.len() == 0 {
        if cur.len() > 0 {
            assert(ts[0] == cur);
            assert(valid_token(cur));
        }
    } else if is_ws(s[0]) {
        lemma_tokens_acc_all_valid(s.drop_first(), Seq::empty());
        if cur.len() > 0 {
            let rest = tokens_acc(s.drop_first(), Seq::empty());
            assert(ts[0] == cur);
            assert(valid_token(cur));
            assert(forall|i: int| 1 <= i < ts.len() ==> ts[i] == rest[i - 1]);
        }
    } else {
        let grown = cur.push(s[0]);
        assert(forall|i: int| 0 <= i < grown.len() ==> !is_ws(grown[i]));
        lemma_tokens_acc_all_valid(s.drop_first(), grown);
        assert(ts == tokens_acc(s.drop_first(), grown));
        assert forall|i: int| 0 <= i < ts.len() implies valid_token(#[trigger] ts[i]) by {
            assert(ts[i] == tokens_acc(s.drop_first(), grown)[i]);
        }
    }
}

/// Every token the whitespace split produces is a well-formed key or
/// value: non-empty, with no embedded whitespace.
pub proof fn lemma_tokens_valid(s: Seq<char>)
    ensures
        forall|i: int| 0 <= i < tokens(s).len() ==> valid_token(#[trigger] tokens(s)[i]),
{
    lemma_tokens_acc_all_valid(s, Seq::empty());
}

/// A whitespace character closes the token accumulated so far.
pub proof fn lemma_tokens_acc_ws(c: char, rest: Seq<char>, cur: Seq<char>)
    requires
        is_ws(c),
    ensures
        tokens_acc(seq![c] + rest, cur) == (if cur.len() == 0 {
            tokens_acc(rest, Seq::empty())
        } else {
            seq![cur] + tokens_acc(rest, Seq::empty())
        }),
{
    let s = seq![c] + rest;
    assert(s[0] == c);
    assert(s.drop_first() =~= rest);
}

} // verus!
