//! Spec-level text model and verified building blocks for working with the
//! filter-graph strings: substring search, prefix tests and decimal
//! formatting of integer and milli-unit values.

use vstd::prelude::*;

verus! {

/// True iff `p` occurs in `s` starting at index `i`.
pub open spec fn has_sub_at(s: Seq<char>, p: Seq<char>, i: int) -> bool {
    0 <= i && i + p.len() <= s.len() && s.subrange(i, i + p.len()) == p
}

/// True iff `p` occurs somewhere in `s`.
pub open spec fn has_sub(s: Seq<char>, p: Seq<char>) -> bool {
    exists|i: int| has_sub_at(s, p, i)
}

/// True iff `s` begins with `p`.
pub open spec fn txt_starts(s: Seq<char>, p: Seq<char>) -> bool {
    p.len() <= s.len() && s.subrange(0, p.len() as int) == p
}

/// True iff `s` ends in the character `c`.
pub open spec fn last_is(s: Seq<char>, c: char) -> bool {
    s.len() > 0 && s[s.len() - 1] == c
}

/// True iff `s` starts with the character `c`.
pub open spec fn first_is(s: Seq<char>, c: char) -> bool {
    s.len() > 0 && s[0] == c
}

/// Relies on `String::push`: appends one character at the end.
#[verifier::external_body]
pub fn push_char(s: &mut String, c: char)
    ensures
        final(s)@ == old(s)@ + seq![c],
{
    s.push(c);
}

/// Compares `p` against `s` at offset `i`, character by character.
pub fn match_at(s: &str, p: &str, i: usize) -> (r: bool)
    requires
        i + p@.len() <= s@.len(),
    ensures
        r == has_sub_at(s@, p@, i as int),
{
    let sl = s.unicode_len();
    let pl = p.unicode_len();
    let mut j: usize = 0;
    while j < pl
        invariant
            j <= pl,
            sl == s@.len(),
            pl == p@.len(),
            i + pl <= sl,
            forall|k: int| 0 <= k < j ==> s@[i + k] == p@[k],
        decreases pl - j,
    {
        if s.get_char(i + j) != p.get_char(j) {
            proof {
                assert(s@.subrange(i as int, i + pl)[j as int] == s@[i + j]);
                assert(s@.subrange(i as int, i + pl) != p@);
            }
            return false;
        }
        j += 1;
    }
    proof {
        assert(s@.subrange(i as int, i + pl) =~= p@);
    }
    true
}

/// Substring search: true iff `p` occurs somewhere in `s`.
pub fn str_has_sub(s: &str, p: &str) -> (r: bool)
    ensures
        r == has_sub(s@, p@),
{
    let sl = s.unicode_len();
    let pl = p.unicode_len();
    if pl > sl {
        proof {
            assert(forall|i: int| !has_sub_at(s@, p@, i));
        }
        return false;
    }
    if pl == 0 {
        proof {
            assert(s@.subrange(0, 0) =~= p@);
            assert(has_sub_at(s@, p@, 0));
        }
        return true;
    }
    let mut i: usize = 0;
    while i <= sl - pl
        invariant
            sl == s@.len(),
            pl == p@.len(),
            1 <= pl <= sl,
            i <= sl - pl + 1,
            forall|j: int| 0 <= j < i ==> !has_sub_at(s@, p@, j),
        decreases sl - pl - i + 1,
    {
        if match_at(s, p, i) {
            return true;
        }
        i += 1;
    }
    proof {
        assert(forall|j: int| j > sl - pl ==> !has_sub_at(s@, p@, j));
        assert(forall|j: int| !has_sub_at(s@, p@, j));
    }
    false
}

/// True iff `s` begins with `p`.
pub fn str_starts(s: &str, p: &str) -> (r: bool)
    ensures
        r == txt_starts(s@, p@),
{
    let sl = s.unicode_len();
    let pl = p.unicode_len();
    if pl > sl {
        return false;
    }
    match_at(s, p, 0)
}

/// True iff `s` starts with the character `c`.
pub fn str_first_is(s: &str, c: char) -> (r: bool)
    ensures
        r == first_is(s@, c),
{
    if s.unicode_len() == 0 {
        false
    } else {
        s.get_char(0) == c
    }
}

/// True iff `s` ends in the character `c`.
pub fn str_last_is(s: &str, c: char) -> (r: bool)
    ensures
        r == last_is(s@, c),
{
    let l = s.unicode_len();
    if l == 0 {
        false
    } else {
        s.get_char(l - 1) == c
    }
}

/// Decimal digit character for a value below ten.
pub open spec fn digit_char(d: int) -> char {
    if d == 0 {
        '0'
    } else if d == 1 {
        '1'
    } else if d == 2 {
        '2'
    } else if d == 3 {
        '3'
    } else if d == 4 {
        '4'
    } else if d == 5 {
        '5'
    } else if d == 6 {
        '6'
    } else if d == 7 {
        '7'
    } else if d == 8 {
        '8'
    } else {
        '9'
    }
}

/// Decimal digits of a non-negative value, most significant first.
pub open spec fn dec_digits(n: nat) -> Seq<char>
    decreases n,
{
    if n < 10 {
        seq![digit_char(n as int)]
    } else {
        dec_digits(n / 10) + seq![digit_char((n % 10) as int)]
    }
}

/// Decimal text of an integer, with a leading `-` when negative.
pub open spec fn int_text(n: int) -> Seq<char> {
    if n < 0 {
        seq!['-'] + dec_digits((-n) as nat)
    } else {
        dec_digits(n as nat)
    }
}

pub proof fn lemma_dec_digits_nonempty(n: nat)
    ensures
        dec_digits(n).len() >= 1,
    decreases n,
{
    if n >= 10 {
        lemma_dec_digits_nonempty(n / 10);
    }
}

pub proof fn lemma_int_text_nonempty(n: int)
    ensures
        int_text(n).len() >= 1,
{
    if n < 0 {
        lemma_dec_digits_nonempty((-n) as nat);
    } else {
        lemma_dec_digits_nonempty(n as nat);
    }
}

fn digit_of(d: u64) -> (c: char)
    requires
        d < 10,
    ensures
        c == digit_char(d as int),
{
    if d == 0 {
        '0'
    } else if d == 1 {
        '1'
    } else if d == 2 {
        '2'
    } else if d == 3 {
        '3'
    } else if d == 4 {
        '4'
    } else if d == 5 {
        '5'
    } else if d == 6 {
        '6'
    } else if d == 7 {
        '7'
    } else if d == 8 {
        '8'
    } else {
        '9'
    }
}

/// Appends the decimal digits of `n` to `s`.
pub fn push_u64(s: &mut String, n: u64)
    ensures
        final(s)@ == old(s)@ + dec_digits(n as nat),
    decreases n,
{
    if n < 10 {
        push_char(s, digit_of(n));
    } else {
        push_u64(s, n / 10);
        push_char(s, digit_of(n % 10));
    }
}

/// Appends the decimal text of `n` to `s`, with a `-` sign when negative.
pub fn push_i64(s: &mut String, n: i64)
    ensures
        final(s)@ == old(s)@ + int_text(n as int),
{
    if n >= 0 {
        push_u64(s, n as u64);
    } else {
        push_char(s, '-');
        let m: u64 = (-(n as i128)) as u64;
        push_u64(s, m);
    }
}

/// Decimal text of an integer as a `String`.
pub fn int_string(n: i64) -> (r: String)
    ensures
        r@ == int_text(n as int),
{
    let mut s = String::new();
    push_i64(&mut s, n);
    s
}

/// Decimal text of a non-negative milli-unit value: the whole part, then a
/// fractional part of up to three digits with trailing zeros dropped.
pub open spec fn milli_text_nn(n: int) -> Seq<char> {
    let whole = dec_digits((n / 1000) as nat);
    let fr = n % 1000;
    if fr == 0 {
        whole
    } else if fr % 100 == 0 {
        whole + seq!['.', digit_char(fr / 100)]
    } else if fr % 10 == 0 {
        whole + seq!['.', digit_char(fr / 100), digit_char((fr / 10) % 10)]
    } else {
        whole + seq!['.', digit_char(fr / 100), digit_char((fr / 10) % 10), digit_char(fr % 10)]
    }
}

/// Decimal text of a milli-unit value, with a `-` sign when negative.
pub open spec fn milli_text(n: int) -> Seq<char> {
    if n < 0 {
        seq!['-'] + milli_text_nn(-n)
    } else {
        milli_text_nn(n)
    }
}

fn push_milli_nn(s: &mut String, n: u64)
    ensures
        final(s)@ == old(s)@ + milli_text_nn(n as int),
{
    push_u64(s, n / 1000);
    let fr = n % 1000;
    if fr != 0 {
        push_char(s, '.');
        push_char(s, digit_of(fr / 100));
        if fr % 100 != 0 {
            push_char(s, digit_of((fr / 10) % 10));
            if fr % 10 != 0 {
                push_char(s, digit_of(fr % 10));
            }
        }
    }
}

/// Appends the decimal text of the milli-unit value `n` to `s`.
pub fn push_milli(s: &mut String, n: i64)
    ensures
        final(s)@ == old(s)@ + milli_text(n as int),
{
    if n >= 0 {
        push_milli_nn(s, n as u64);
    } else {
        push_char(s, '-');
        let m: u64 = (-(n as i128)) as u64;
        push_milli_nn(s, m);
    }
}

/// Decimal text of a milli-unit value as a `String`.
pub fn milli_string(n: i64) -> (r: String)
    ensures
        r@ == milli_text(n as int),
{
    let mut s = String::new();
    push_milli(&mut s, n);
    s
}

/// Character-for-character equality of two strings.
pub fn str_eq(a: &str, b: &str) -> (r: bool)
    ensures
        r == (a@ == b@),
{
    let al = a.unicode_len();
    let bl = b.unicode_len();
    if al != bl {
        return false;
    }
    let r = match_at(a, b, 0);
    proof {
        if r {
            assert(a@.subrange(0, al as int) =~= a@);
        } else {
            if a@ == b@ {
                assert(a@.subrange(0, al as int) =~= b@);
            }
        }
    }
    r
}

/// `s` with every occurrence of the character `c` replaced by `rep`.
pub open spec fn repl_char(s: Seq<char>, c: char, rep: Seq<char>) -> Seq<char>
    decreases s.len(),
{
    if s.len() == 0 {
        s
    } else {
        (if s[0] == c {
            rep
        } else {
            seq![s[0]]
        }) + repl_char(s.skip(1), c, rep)
    }
}

/// Replaces every occurrence of the character `c` in `s` by `rep`.
pub fn replace_char(s: &str, c: char, rep: &str) -> (r: String)
    ensures
        r@ == repl_char(s@, c, rep@),
{
    let l = s.unicode_len();
    let mut out = String::new();
    let mut i: usize = 0;
    proof {
        assert(s@.skip(0) =~= s@);
    }
    while i < l
        invariant
            i <= l,
            l == s@.len(),
            repl_char(s@, c, rep@) == out@ + repl_char(s@.skip(i as int), c, rep@),
        decreases l - i,
    {
        let x = s.get_char(i);
        proof {
            assert(s@.skip(i as int)[0] == s@[i as int]);
            assert(s@.skip(i as int).skip(1) =~= s@.skip(i + 1));
        }
        if x == c {
            out.append(rep);
        } else {
            push_char(&mut out, x);
        }
        i += 1;
    }
    proof {
        assert(s@.skip(l as int) =~= Seq::<char>::empty());
    }
    out
}

/// Index of the first occurrence of `p` in `s`, or -1.
pub open spec fn first_sub_idx(s: Seq<char>, p: Seq<char>) -> int
    decreases s.len(),
{
    if has_sub_at(s, p, 0) {
        0
    } else if s.len() == 0 {
        -1
    } else {
        let r = first_sub_idx(s.skip(1), p);
        if r < 0 {
            -1
        } else {
            r + 1
        }
    }
}

/// Occurrences in a suffix are occurrences in the whole, shifted.
pub proof fn lemma_has_sub_at_shift(s: Seq<char>, p: Seq<char>, from: int, k: int)
    requires
        0 <= from <= s.len(),
        0 <= k,
    ensures
        has_sub_at(s.skip(from), p, k) == has_sub_at(s, p, from + k),
{
    if k + p.len() <= s.skip(from).len() {
        assert(s.skip(from).subrange(k, k + p.len()) =~= s.subrange(from + k, from + k + p.len()));
    }
}

pub proof fn lemma_first_sub_idx(s: Seq<char>, p: Seq<char>)
    ensures
        first_sub_idx(s, p) == -1 ==> (forall|j: int| !has_sub_at(s, p, j)),
        first_sub_idx(s, p) != -1 ==> {
            let r = first_sub_idx(s, p);
            &&& 0 <= r
            &&& r + p.len() <= s.len()
            &&& has_sub_at(s, p, r)
            &&& forall|j: int| 0 <= j < r ==> !has_sub_at(s, p, j)
        },
    decreases s.len(),
{
    if !has_sub_at(s, p, 0) && s.len() > 0 {
        lemma_first_sub_idx(s.skip(1), p);
        let r1 = first_sub_idx(s.skip(1), p);
        if r1 == -1 {
            assert forall|j: int| !has_sub_at(s, p, j) by {
                if j >= 1 {
                    lemma_has_sub_at_shift(s, p, 1, j - 1);
                }
            }
        } else {
            lemma_has_sub_at_shift(s, p, 1, r1);
            assert forall|j: int| 0 <= j < r1 + 1 implies !has_sub_at(s, p, j) by {
                if j >= 1 {
                    lemma_has_sub_at_shift(s, p, 1, j - 1);
                }
            }
        }
    }
}

/// When `k` is the first occurrence of `p`, `first_sub_idx` finds exactly `k`.
pub proof fn lemma_first_sub_at(s: Seq<char>, p: Seq<char>, k: int)
    requires
        has_sub_at(s, p, k),
        forall|j: int| 0 <= j < k ==> !has_sub_at(s, p, j),
    ensures
        first_sub_idx(s, p) == k,
{
    lemma_first_sub_idx(s, p);
}

/// `s` with every occurrence of `p` replaced by `rep`, left to right and
/// without overlap; an empty pattern leaves `s` unchanged.
pub open spec fn replace_all(s: Seq<char>, p: Seq<char>, rep: Seq<char>) -> Seq<char>
    decreases s.len(),
{
    if p.len() == 0 {
        s
    } else {
        let i = first_sub_idx(s, p);
        if 0 <= i && i + p.len() <= s.len() {
            s.take(i) + rep + replace_all(s.skip(i + p.len()), p, rep)
        } else {
            s
        }
    }
}

/// Finds the first occurrence of `p` in `s` at or after `from`.
fn find_sub_from(s: &str, p: &str, from: usize) -> (r: Option<usize>)
    requires
        from <= s@.len(),
        p@.len() >= 1,
    ensures
        match r {
            Some(j) => {
                &&& from <= j
                &&& j + p@.len() <= s@.len()
                &&& has_sub_at(s@, p@, j as int)
                &&& forall|k: int| from <= k < j ==> !has_sub_at(s@, p@, k)
            },
            None => forall|k: int| from <= k ==> !has_sub_at(s@, p@, k),
        },
{
    let sl = s.unicode_len();
    let pl = p.unicode_len();
    if pl > sl - from {
        return None;
    }
    let mut j = from;
    while j <= sl - pl
        invariant
            from <= j <= sl - pl + 1,
            sl == s@.len(),
            pl == p@.len(),
            1 <= pl,
            from + pl <= sl,
            forall|k: int| from <= k < j ==> !has_sub_at(s@, p@, k),
        decreases sl - pl - j + 1,
    {
        if match_at(s, p, j) {
            return Some(j);
        }
        j += 1;
    }
    None
}

/// Replaces every occurrence of `p` in `s` by `rep`, left to right and
/// without overlap.
pub fn str_replace_all(s: &str, p: &str, rep: &str) -> (r: String)
    ensures
        r@ == replace_all(s@, p@, rep@),
{
    let sl = s.unicode_len();
    if p.unicode_len() == 0 {
        return String::from_str(s);
    }
    let mut out = String::new();
    let mut from: usize = 0;
    proof {
        assert(s@.skip(0) =~= s@);
    }
    loop
        invariant
            from <= sl,
            sl == s@.len(),
            p@.len() >= 1,
            replace_all(s@, p@, rep@) == out@ + replace_all(s@.skip(from as int), p@, rep@),
        decreases sl - from,
    {
        match find_sub_from(s, p, from) {
            Some(j) => {
                let pl = p.unicode_len();
                proof {
                    let suff = s@.skip(from as int);
                    lemma_has_sub_at_shift(s@, p@, from as int, j - from);
                    assert forall|k: int| 0 <= k < j - from implies !has_sub_at(suff, p@, k) by {
                        lemma_has_sub_at_shift(s@, p@, from as int, k);
                    }
                    lemma_first_sub_at(suff, p@, j - from);
                    assert(suff.take(j - from) =~= s@.subrange(from as int, j as int));
                    assert(suff.skip(j - from + p@.len()) =~= s@.skip(j + p@.len()));
                }
                let part = s.substring_char(from, j);
                out.append(part);
                out.append(rep);
                from = j + pl;
            },
            None => {
                proof {
                    let suff = s@.skip(from as int);
                    assert forall|k: int| !has_sub_at(suff, p@, k) by {
                        if k >= 0 {
                            lemma_has_sub_at_shift(s@, p@, from as int, k);
                        }
                    }
                    lemma_first_sub_idx(suff, p@);
                    if first_sub_idx(suff, p@) != -1 {
                        assert(has_sub_at(suff, p@, first_sub_idx(suff, p@)));
                    }
                }
                let part = s.substring_char(from, sl);
                out.append(part);
                proof {
                    assert(s@.subrange(from as int, sl as int) =~= s@.skip(from as int));
                }
                return out;
            },
        }
    }
}

/// A template with its `{}` placeholders filled by `args` in order; extra
/// placeholders beyond the arguments stay verbatim.
pub open spec fn tmpl_fill(t: Seq<char>, args: Seq<Seq<char>>) -> Seq<char>
    decreases t.len(),
{
    if t.len() == 0 {
        t
    } else if t.len() >= 2 && t[0] == '{' && t[1] == '}' {
        if args.len() > 0 {
            args[0] + tmpl_fill(t.skip(2), args.skip(1))
        } else {
            seq!['{', '}'] + tmpl_fill(t.skip(2), args)
        }
    } else {
        seq![t[0]] + tmpl_fill(t.skip(1), args)
    }
}

/// Fills the `{}` placeholders of an override template with the given
/// values, in order.
pub fn custom_format(template: &str, args: &Vec<String>) -> (r: String)
    ensures
        r@ == tmpl_fill(template@, args.deep_view()),
{
    let l = template.unicode_len();
    let mut out = String::new();
    let mut i: usize = 0;
    let mut k: usize = 0;
    proof {
        assert(template@.skip(0) =~= template@);
        assert(args.deep_view().skip(0) =~= args.deep_view());
    }
    while i < l
        invariant
            i <= l,
            l == template@.len(),
            k <= args.len(),
            args.len() == args.deep_view().len(),
            tmpl_fill(template@, args.deep_view()) == out@ + tmpl_fill(
                template@.skip(i as int),
                args.deep_view().skip(k as int),
            ),
        decreases l - i,
    {
        let c = template.get_char(i);
        proof {
            assert(template@.skip(i as int)[0] == template@[i as int]);
        }
        if c == '{' && i + 1 < l && template.get_char(i + 1) == '}' {
            proof {
                assert(template@.skip(i as int)[1] == template@[i + 1]);
                assert(template@.skip(i as int).skip(2) =~= template@.skip(i + 2));
            }
            if k < args.len() {
                proof {
                    assert(args.deep_view().skip(k as int)[0] == args.deep_view()[k as int]);
                    assert(args.deep_view()[k as int] == args@[k as int]@);
                    assert(args.deep_view().skip(k as int).skip(1) =~= args.deep_view().skip(
                        k + 1,
                    ));
                }
                out.append(args[k].as_str());
                k += 1;
            } else {
                proof {
                    reveal_strlit("{}");
                    assert("{}"@ =~= seq!['{', '}']);
                    assert(args.deep_view().skip(k as int) =~= args.deep_view().skip(k as int));
                }
                out.append("{}");
            }
            i += 2;
        } else {
            proof {
                assert(template@.skip(i as int).skip(1) =~= template@.skip(i + 1));
                if template@.skip(i as int).len() >= 2 && template@[i as int] == '{'
                    && template@.skip(i as int)[1] == '}' {
                    assert(template@[i + 1] == '}');
                }
            }
            push_char(&mut out, c);
            i += 1;
        }
    }
    proof {
        assert(template@.skip(l as int) =~= Seq::<char>::empty());
    }
    out
}

} // verus!
