//! Tokenising a chain string: splitting on the two separator characters
//! (`,` between filters of one chain, `;` between chains) with terminator
//! semantics, and trimming blank characters from each token.

use vstd::prelude::*;
use crate::text::push_char;

verus! {

/// The two separator characters of the filter-graph grammar.
pub open spec fn is_sep(c: char) -> bool {
    c == ',' || c == ';'
}

/// ASCII blank characters stripped from the ends of a token.
pub open spec fn is_blank(c: char) -> bool {
    c == ' ' || c == '\t' || c == '\n' || c == '\r'
}

/// Index of the first separator in `s`, or -1 when `s` has none.
pub open spec fn first_sep_idx(s: Seq<char>) -> int
    decreases s.len(),
{
    if s.len() == 0 {
        -1
    } else if is_sep(s[0]) {
        0
    } else {
        let r = first_sep_idx(s.skip(1));
        if r < 0 {
            -1
        } else {
            r + 1
        }
    }
}

pub proof fn lemma_first_sep_idx(s: Seq<char>)
    ensures
        first_sep_idx(s) == -1 ==> (forall|j: int| 0 <= j < s.len() ==> !is_sep(s[j])),
        first_sep_idx(s) != -1 ==> {
            let r = first_sep_idx(s);
            &&& 0 <= r < s.len()
            &&& is_sep(s[r])
            &&& forall|j: int| 0 <= j < r ==> !is_sep(s[j])
        },
    decreases s.len(),
{
    if s.len() > 0 && !is_sep(s[0]) {
        lemma_first_sep_idx(s.skip(1));
        let r1 = first_sep_idx(s.skip(1));
        if r1 == -1 {
            assert forall|j: int| 0 <= j < s.len() implies !is_sep(s[j]) by {
                if j >= 1 {
                    assert(s.skip(1)[j - 1] == s[j]);
                }
            }
        } else {
            assert(s.skip(1)[r1] == s[r1 + 1]);
            assert forall|j: int| 0 <= j < r1 + 1 implies !is_sep(s[j]) by {
                if j >= 1 {
                    assert(s.skip(1)[j - 1] == s[j]);
                }
            }
        }
    }
}

/// When `s[k]` is the first separator, `first_sep_idx` finds exactly `k`.
pub proof fn lemma_first_sep_at(s: Seq<char>, k: int)
    requires
        0 <= k < s.len(),
        is_sep(s[k]),
        forall|j: int| 0 <= j < k ==> !is_sep(s[j]),
    ensures
        first_sep_idx(s) == k,
{
    lemma_first_sep_idx(s);
}

/// The separator-delimited tokens of `s`: a trailing separator closes the
/// last token instead of opening an empty one.
pub open spec fn sep_tokens(s: Seq<char>) -> Seq<Seq<char>>
    decreases s.len(),
{
    if s.len() == 0 {
        seq![]
    } else {
        let i = first_sep_idx(s);
        if 0 <= i && i < s.len() {
            seq![s.take(i)] + sep_tokens(s.skip(i + 1))
        } else {
            seq![s]
        }
    }
}

/// Splitting consumes a separator-free prefix as one token.
pub proof fn lemma_sep_tokens_step(cur: Seq<char>, c: char, rest: Seq<char>)
    requires
        is_sep(c),
        forall|j: int| 0 <= j < cur.len() ==> !is_sep(cur[j]),
    ensures
        sep_tokens(cur + seq![c] + rest) == seq![cur] + sep_tokens(rest),
{
    let s = cur + seq![c] + rest;
    assert(s[cur.len() as int] == c);
    assert(forall|j: int| 0 <= j < cur.len() ==> s[j] == cur[j]);
    lemma_first_sep_at(s, cur.len() as int);
    assert(s.take(cur.len() as int) =~= cur);
    assert(s.skip(cur.len() as int + 1) =~= rest);
}

/// A non-empty separator-free string is a single token.
pub proof fn lemma_sep_tokens_whole(cur: Seq<char>)
    requires
        cur.len() > 0,
        forall|j: int| 0 <= j < cur.len() ==> !is_sep(cur[j]),
    ensures
        sep_tokens(cur) == seq![cur],
{
    lemma_first_sep_idx(cur);
}

/// `s` without its blank prefix.
pub open spec fn trim_front(s: Seq<char>) -> Seq<char>
    decreases s.len(),
{
    if s.len() > 0 && is_blank(s[0]) {
        trim_front(s.skip(1))
    } else {
        s
    }
}

/// `s` without its blank suffix.
pub open spec fn trim_back(s: Seq<char>) -> Seq<char>
    decreases s.len(),
{
    if s.len() > 0 && is_blank(s[s.len() - 1]) {
        trim_back(s.drop_last())
    } else {
        s
    }
}

/// `s` without blanks at either end.
pub open spec fn trimmed(s: Seq<char>) -> Seq<char> {
    trim_back(trim_front(s))
}

proof fn lemma_trim_front_skip(s: Seq<char>, a: int)
    requires
        0 <= a <= s.len(),
        forall|j: int| 0 <= j < a ==> is_blank(s[j]),
        a == s.len() || !is_blank(s[a]),
    ensures
        trim_front(s) == s.skip(a),
    decreases a,
{
    if a == 0 {
        assert(s.skip(0) =~= s);
    } else {
        lemma_trim_front_skip(s.skip(1), a - 1);
        assert(forall|j: int| 0 <= j < s.skip(1).len() ==> s.skip(1)[j] == s[j + 1]);
        assert(s.skip(1).skip(a - 1) =~= s.skip(a));
    }
}

proof fn lemma_trim_back_take(s: Seq<char>, b: int)
    requires
        0 <= b <= s.len(),
        forall|j: int| b <= j < s.len() ==> is_blank(s[j]),
        b == 0 || !is_blank(s[b - 1]),
    ensures
        trim_back(s) == s.take(b),
    decreases s.len(),
{
    if b == s.len() {
        if s.len() == 0 || !is_blank(s[s.len() - 1]) {
            assert(s.take(b) =~= s);
        }
    } else {
        assert(is_blank(s[s.len() - 1]));
        lemma_trim_back_take(s.drop_last(), b);
        assert(s.drop_last().take(b) =~= s.take(b));
    }
}

fn blank_exec(c: char) -> (r: bool)
    ensures
        r == is_blank(c),
{
    c == ' ' || c == '\t' || c == '\n' || c == '\r'
}

/// Copy of `s` with blanks removed from both ends.
pub fn str_trimmed(s: &str) -> (r: String)
    ensures
        r@ == trimmed(s@),
{
    let l = s.unicode_len();
    let mut a: usize = 0;
    while a < l && blank_exec(s.get_char(a))
        invariant
            a <= l,
            l == s@.len(),
            forall|j: int| 0 <= j < a ==> is_blank(s@[j]),
        decreases l - a,
    {
        a += 1;
    }
    proof {
        lemma_trim_front_skip(s@, a as int);
    }
    let mut b: usize = l;
    while b > a && blank_exec(s.get_char(b - 1))
        invariant
            a <= b <= l,
            l == s@.len(),
            forall|j: int| b <= j < l ==> is_blank(s@[j]),
        decreases b,
    {
        b -= 1;
    }
    proof {
        let tail = s@.skip(a as int);
        assert(forall|j: int| b - a <= j < tail.len() ==> tail[j] == s@[j + a]);
        lemma_trim_back_take(tail, b - a);
        assert(tail.take(b - a) =~= s@.subrange(a as int, b as int));
    }
    let mut r = String::new();
    let mut k: usize = a;
    while k < b
        invariant
            a <= k <= b <= l,
            l == s@.len(),
            r@ == s@.subrange(a as int, k as int),
        decreases b - k,
    {
        let c = s.get_char(k);
        push_char(&mut r, c);
        proof {
            assert(s@.subrange(a as int, k + 1) =~= s@.subrange(a as int, k as int) + seq![
                s@[k as int],
            ]);
        }
        k += 1;
    }
    r
}

/// The trimmed separator-delimited tokens of a chain string.
pub open spec fn ttokens(s: Seq<char>) -> Seq<Seq<char>> {
    sep_tokens(s).map_values(|t: Seq<char>| trimmed(t))
}

/// Splits `s` on the separator characters and trims every token, dropping a
/// trailing empty token after a final separator.
pub fn split_tokens(s: &str) -> (out: Vec<String>)
    ensures
        out.deep_view() == ttokens(s@),
{
    let l = s.unicode_len();
    let mut out: Vec<String> = Vec::new();
    let mut cur = String::new();
    let ghost mut done: Seq<Seq<char>> = seq![];
    let mut i: usize = 0;
    proof {
        assert(cur@ + s@.skip(0) =~= s@);
        assert(out.deep_view() =~= done.map_values(|t: Seq<char>| trimmed(t)));
    }
    while i < l
        invariant
            i <= l,
            l == s@.len(),
            sep_tokens(s@) == done + sep_tokens(cur@ + s@.skip(i as int)),
            out.deep_view() == done.map_values(|t: Seq<char>| trimmed(t)),
            forall|j: int| 0 <= j < cur@.len() ==> !is_sep(cur@[j]),
        decreases l - i,
    {
        let c = s.get_char(i);
        proof {
            assert(s@.skip(i as int) =~= seq![s@[i as int]] + s@.skip(i + 1));
        }
        if c == ',' || c == ';' {
            proof {
                assert(cur@ + s@.skip(i as int) =~= cur@ + seq![c] + s@.skip(i + 1));
                lemma_sep_tokens_step(cur@, c, s@.skip(i + 1));
            }
            let t = str_trimmed(cur.as_str());
            out.push(t);
            proof {
                let f = |x: Seq<char>| trimmed(x);
                assert((done + seq![cur@]).map_values(f) =~= done.map_values(f) + seq![
                    trimmed(cur@),
                ]);
                assert(done + (seq![cur@] + sep_tokens(s@.skip(i + 1))) =~= (done + seq![cur@])
                    + sep_tokens(s@.skip(i + 1)));
                done = done + seq![cur@];
            }
            cur = String::new();
            proof {
                assert(cur@ + s@.skip(i + 1) =~= s@.skip(i + 1));
                assert(done + sep_tokens(cur@ + s@.skip(i + 1)) =~= sep_tokens(s@));
            }
        } else {
            let ghost prev = cur@;
            push_char(&mut cur, c);
            proof {
                assert(cur@ + s@.skip(i + 1) =~= prev + s@.skip(i as int));
                assert(forall|j: int| 0 <= j < prev.len() ==> cur@[j] == prev[j]);
            }
        }
        i += 1;
    }
    proof {
        assert(s@.skip(l as int) =~= Seq::<char>::empty());
        assert(cur@ + s@.skip(l as int) =~= cur@);
    }
    if cur.as_str().unicode_len() > 0 {
        proof {
            lemma_sep_tokens_whole(cur@);
        }
        let t = str_trimmed(cur.as_str());
        out.push(t);
        proof {
            let f = |x: Seq<char>| trimmed(x);
            assert((done + seq![cur@]).map_values(f) =~= done.map_values(f) + seq![trimmed(cur@)]);
            done = done + seq![cur@];
        }
    } else {
        proof {
            assert(cur@ =~= Seq::<char>::empty());
            assert(sep_tokens(cur@) =~= Seq::<Seq<char>>::empty());
            assert(done + sep_tokens(cur@) =~= done);
        }
    }
    proof {
        assert(out.deep_view() =~= ttokens(s@));
    }
    out
}

} // verus!
