//! Character-level primitives: whitespace collapse, literal search, splitting and decimals.
use vstd::prelude::*;

verus! {

pub open spec fn is_space(c: char) -> bool {
    c == ' ' || c == '\n' || c == '\t' || c == '\r'
}

/// The text with every run of whitespace turned into one space and leading whitespace removed.
pub open spec fn collapse(s: Seq<char>) -> Seq<char>
    decreases s.len(),
{
    if s.len() == 0 {
        Seq::empty()
    } else {
        let prev = collapse(s.drop_last());
        let c = s.last();
        if is_space(c) {
            if prev.len() == 0 || prev.last() == ' ' {
                prev
            } else {
                prev.push(' ')
            }
        } else {
            prev.push(c)
        }
    }
}

/// `p` stands in `t` starting at index `i`.
pub open spec fn occurs_at(t: Seq<char>, p: Seq<char>, i: int) -> bool {
    0 <= i && i + p.len() <= t.len() && t.subrange(i, i + p.len()) == p
}

/// The first index at or after `from` where `p` stands in `t`.
pub open spec fn find(t: Seq<char>, p: Seq<char>, from: int) -> Option<int>
    decreases t.len() - from,
{
    if from < 0 || from + p.len() > t.len() {
        None
    } else if occurs_at(t, p, from) {
        Some(from)
    } else if from >= t.len() {
        None
    } else {
        find(t, p, from + 1)
    }
}

/// The last index at or before `i` where `p` stands in `t`.
pub open spec fn rfind(t: Seq<char>, p: Seq<char>, i: int) -> Option<int>
    decreases i + 1,
{
    if i < 0 {
        None
    } else if occurs_at(t, p, i) {
        Some(i)
    } else {
        rfind(t, p, i - 1)
    }
}

/// The pieces of `s` between occurrences of `sep`; always at least one piece.
pub open spec fn split(s: Seq<char>, sep: char) -> Seq<Seq<char>>
    decreases s.len(),
{
    if s.len() == 0 {
        seq![Seq::empty()]
    } else {
        let prev = split(s.drop_last(), sep);
        if s.last() == sep {
            prev.push(Seq::empty())
        } else {
            prev.update(prev.len() - 1, prev.last().push(s.last()))
        }
    }
}

pub open spec fn is_digit(c: char) -> bool {
    '0' <= c && c <= '9'
}

pub open spec fn all_digits(s: Seq<char>) -> bool {
    s.len() > 0 && forall|i: int| 0 <= i < s.len() ==> is_digit(#[trigger] s[i])
}

pub open spec fn digit_value(c: char) -> nat {
    (c as int - '0' as int) as nat
}

/// The number written by the decimal digits of `s`.
pub open spec fn digits_value(s: Seq<char>) -> nat
    decreases s.len(),
{
    if s.len() == 0 {
        0
    } else {
        digits_value(s.drop_last()) * 10 + digit_value(s.last())
    }
}

/// `s` read as a non-negative decimal integer that fits in a `u64`.
pub open spec fn decimal(s: Seq<char>) -> Option<u64> {
    if all_digits(s) && digits_value(s) <= u64::MAX {
        Some(digits_value(s) as u64)
    } else {
        None
    }
}

pub proof fn lemma_split_nonempty(s: Seq<char>, sep: char)
    ensures
        split(s, sep).len() >= 1,
    decreases s.len(),
{
    if s.len() > 0 {
        lemma_split_nonempty(s.drop_last(), sep);
    }
}

/// A text without the separator is one piece.
pub proof fn lemma_split_single(s: Seq<char>, sep: char)
    requires
        forall|i: int| 0 <= i < s.len() ==> s[i] != sep,
    ensures
        split(s, sep) == seq![s],
    decreases s.len(),
{
    if s.len() > 0 {
        lemma_split_single(s.drop_last(), sep);
        assert(s.drop_last().push(s.last()) =~= s);
        assert(seq![s.drop_last()].update(0, s) =~= seq![s]);
    } else {
        assert(s =~= Seq::<char>::empty());
    }
}

/// Splitting two texts joined by the separator gives the pieces of each, in order.
pub proof fn lemma_split_join(a: Seq<char>, b: Seq<char>, sep: char)
    ensures
        split(a + seq![sep] + b, sep) == split(a, sep) + split(b, sep),
    decreases b.len(),
{
    let ab = a + seq![sep] + b;
    lemma_split_nonempty(a, sep);
    if b.len() == 0 {
        assert(ab.drop_last() =~= a);
        assert(split(a, sep).push(Seq::empty()) =~= split(a, sep) + seq![Seq::<char>::empty()]);
    } else {
        assert(ab.drop_last() =~= a + seq![sep] + b.drop_last());
        lemma_split_join(a, b.drop_last(), sep);
        lemma_split_nonempty(b.drop_last(), sep);
        let x = split(a, sep);
        let y = split(b.drop_last(), sep);
        if b.last() == sep {
            assert((x + y).push(Seq::empty()) =~= x + y.push(Seq::empty()));
        } else {
            assert((x + y).update((x + y).len() - 1, (x + y).last().push(b.last())) =~= x + y.update(
                y.len() - 1,
                y.last().push(b.last()),
            ));
        }
    }
}

proof fn lemma_digits_prefix(s: Seq<char>, j: int)
    requires
        0 <= j <= s.len(),
    ensures
        digits_value(s.take(j)) <= digits_value(s),
    decreases s.len(),
{
    if j < s.len() {
        lemma_digits_prefix(s.drop_last(), j);
        assert(s.drop_last().take(j) =~= s.take(j));
    } else {
        assert(s.take(j) =~= s);
    }
}

pub proof fn lemma_find_some(t: Seq<char>, p: Seq<char>, from: int)
    ensures
        find(t, p, from) matches Some(k) ==> (from <= k && occurs_at(t, p, k) && k + p.len()
            <= t.len()),
    decreases t.len() - from,
{
    if from < 0 || from + p.len() > t.len() {
    } else if occurs_at(t, p, from) {
    } else if from >= t.len() {
    } else {
        lemma_find_some(t, p, from + 1);
    }
}

/// A match found in `t` is found in any `t2` that agrees with `t` up to the match's end.
pub proof fn lemma_find_prefix(t: Seq<char>, t2: Seq<char>, p: Seq<char>, from: int)
    requires
        find(t, p, from) is Some,
        find(t, p, from)->0 + p.len() <= t2.len(),
        t.take(find(t, p, from)->0 + p.len()) == t2.take(find(t, p, from)->0 + p.len()),
    ensures
        find(t2, p, from) == find(t, p, from),
    decreases t.len() - from,
{
    let k = find(t, p, from)->0;
    let e = k + p.len();
    lemma_find_some(t, p, from);
    if from + p.len() <= t.len() {
        assert(t.subrange(from, from + p.len()) =~= t.take(e).subrange(from, from + p.len()));
        assert(t2.subrange(from, from + p.len()) =~= t2.take(e).subrange(from, from + p.len()));
        if !occurs_at(t, p, from) && from < t.len() {
            lemma_find_prefix(t, t2, p, from + 1);
        }
    }
}

/// Where `t2` ends with the same text as `t`, a match in that text moves by the offset.
pub proof fn lemma_occurs_shift(t: Seq<char>, t2: Seq<char>, p: Seq<char>, j: int, c: int, d: int)
    requires
        0 <= c <= j,
        c <= t.len(),
        0 <= c + d <= t2.len(),
        t.skip(c) == t2.skip(c + d),
    ensures
        occurs_at(t2, p, j + d) == occurs_at(t, p, j),
{
    assert(t.skip(c).len() == t.len() - c);
    assert(t2.skip(c + d).len() == t2.len() - (c + d));
    if j + p.len() <= t.len() {
        let a = t2.subrange(j + d, j + d + p.len());
        let b = t.subrange(j, j + p.len());
        assert forall|x: int| 0 <= x < p.len() implies #[trigger] a[x] == b[x] by {
            assert(t2.skip(c + d)[j - c + x] == t.skip(c)[j - c + x]);
            assert(t2.skip(c + d)[j - c + x] == t2[j + d + x]);
            assert(t.skip(c)[j - c + x] == t[j + x]);
        }
        assert(a =~= b);
    }
}

/// Where `t2` ends with the same text as `t`, a search in that text moves by the offset.
pub proof fn lemma_find_shift(t: Seq<char>, t2: Seq<char>, p: Seq<char>, from: int, c: int, d: int)
    requires
        0 <= c <= from,
        c <= t.len(),
        0 <= c + d <= t2.len(),
        t.skip(c) == t2.skip(c + d),
    ensures
        find(t2, p, from + d) == match find(t, p, from) {
            Some(k) => Some(k + d),
            None => None::<int>,
        },
    decreases t.len() - from,
{
    assert(t.skip(c).len() == t.len() - c);
    assert(t2.skip(c + d).len() == t2.len() - (c + d));
    assert(t2.len() == t.len() + d);
    if from + p.len() <= t.len() {
        let a = t2.subrange(from + d, from + d + p.len());
        let b = t.subrange(from, from + p.len());
        assert forall|j: int| 0 <= j < p.len() implies #[trigger] a[j] == b[j] by {
            assert(t2.skip(c + d)[from - c + j] == t.skip(c)[from - c + j]);
            assert(t2.skip(c + d)[from - c + j] == t2[from + d + j]);
            assert(t.skip(c)[from - c + j] == t[from + j]);
        }
        assert(a =~= b);
        if !occurs_at(t, p, from) && from < t.len() {
            lemma_find_shift(t, t2, p, from + 1, c, d);
        }
    }
}

pub proof fn lemma_rfind_some(t: Seq<char>, p: Seq<char>, i: int)
    ensures
        rfind(t, p, i) matches Some(k) ==> (k <= i && occurs_at(t, p, k) && forall|j: int|
            k < j <= i ==> !occurs_at(t, p, j)),
    decreases i + 1,
{
    if i >= 0 && !occurs_at(t, p, i) {
        lemma_rfind_some(t, p, i - 1);
    }
}

/// The last match at or before `i` is `k` where `p` stands at `k` and nowhere after it.
pub proof fn lemma_rfind_is(t: Seq<char>, p: Seq<char>, i: int, k: int)
    requires
        0 <= k <= i,
        occurs_at(t, p, k),
        forall|j: int| k < j <= i ==> !occurs_at(t, p, j),
    ensures
        rfind(t, p, i) == Some(k),
    decreases i + 1,
{
    if i > k {
        lemma_rfind_is(t, p, i - 1, k);
    }
}

/// The characters of `s`, in order.
pub fn chars_of(s: &str) -> (r: Vec<char>)
    ensures
        r@ == s@,
{
    let n = s.unicode_len();
    let mut r: Vec<char> = Vec::new();
    let mut i: usize = 0;
    while i < n
        invariant
            n == s@.len(),
            i <= n,
            r@ == s@.take(i as int),
        decreases n - i,
    {
        let c = s.get_char(i);
        r.push(c);
        i = i + 1;
        assert(r@ =~= s@.take(i as int));
    }
    assert(r@ =~= s@);
    r
}

/// Collapses whitespace as `collapse` states.
pub fn normalize(s: &Vec<char>) -> (r: Vec<char>)
    ensures
        r@ == collapse(s@),
{
    let mut r: Vec<char> = Vec::new();
    let mut i: usize = 0;
    while i < s.len()
        invariant
            i <= s.len(),
            r@ == collapse(s@.take(i as int)),
        decreases s.len() - i,
    {
        let c = s[i];
        assert(s@.take(i + 1).drop_last() =~= s@.take(i as int));
        if c == ' ' || c == '\n' || c == '\t' || c == '\r' {
            if r.len() != 0 && r[r.len() - 1] != ' ' {
                r.push(' ');
            }
        } else {
            r.push(c);
        }
        i = i + 1;
    }
    assert(s@.take(s@.len() as int) =~= s@);
    r
}

/// Whether `p` stands in `t` at index `i`.
pub fn matches_at(t: &Vec<char>, p: &Vec<char>, i: usize) -> (r: bool)
    ensures
        r == occurs_at(t@, p@, i as int),
{
    if i > t.len() || p.len() > t.len() - i {
        return false;
    }
    let mut j: usize = 0;
    while j < p.len()
        invariant
            i + p.len() <= t.len(),
            j <= p.len(),
            forall|k: int| 0 <= k < j ==> t@[i + k] == p@[k],
        decreases p.len() - j,
    {
        if t[i + j] != p[j] {
            assert(t@.subrange(i as int, i + p.len())[j as int] != p@[j as int]);
            return false;
        }
        j = j + 1;
    }
    assert(t@.subrange(i as int, i + p.len()) =~= p@);
    true
}

/// The first index at or after `from` where `p` stands in `t`.
pub fn find_from(t: &Vec<char>, p: &Vec<char>, from: usize) -> (r: Option<usize>)
    ensures
        r matches Some(k) ==> (find(t@, p@, from as int) == Some(k as int) && from <= k && k
            + p@.len() <= t@.len() <= usize::MAX),
        r is None ==> find(t@, p@, from as int) is None,
{
    let mut i: usize = from;
    while i <= t.len()
        invariant
            from <= i,
            find(t@, p@, from as int) == find(t@, p@, i as int),
        decreases t.len() + 1 - i,
    {
        if p.len() > t.len() - i {
            return None;
        }
        if matches_at(t, p, i) {
            return Some(i);
        }
        if i == t.len() {
            return None;
        }
        i = i + 1;
    }
    None
}

/// The last index where `p` stands in `t`.
pub fn rfind_last(t: &Vec<char>, p: &Vec<char>) -> (r: Option<usize>)
    ensures
        r matches Some(k) ==> (rfind(t@, p@, t@.len() as int) == Some(k as int) && k + p@.len()
            <= t@.len() <= usize::MAX),
        r is None ==> rfind(t@, p@, t@.len() as int) is None,
{
    let mut i: usize = t.len();
    loop
        invariant
            i <= t.len(),
            rfind(t@, p@, t@.len() as int) == rfind(t@, p@, i as int),
        decreases i,
    {
        if matches_at(t, p, i) {
            return Some(i);
        }
        if i == 0 {
            assert(rfind(t@, p@, -1) is None);
            return None;
        }
        i = i - 1;
    }
}

/// The characters of `t` from `a` to `b`.
pub fn span(t: &Vec<char>, a: usize, b: usize) -> (r: Vec<char>)
    requires
        a <= b <= t@.len(),
    ensures
        r@ == t@.subrange(a as int, b as int),
{
    let mut r: Vec<char> = Vec::new();
    let mut i: usize = a;
    while i < b
        invariant
            a <= i <= b <= t@.len(),
            r@ == t@.subrange(a as int, i as int),
        decreases b - i,
    {
        r.push(t[i]);
        i = i + 1;
        assert(r@ =~= t@.subrange(a as int, i as int));
    }
    r
}

/// Splits `s` at each `sep`, as `split` states.
pub fn split_at_char(s: &Vec<char>, sep: char) -> (r: Vec<Vec<char>>)
    ensures
        r@.map_values(|v: Vec<char>| v@) == split(s@, sep),
{
    let mut done: Vec<Vec<char>> = Vec::new();
    let mut cur: Vec<char> = Vec::new();
    let mut i: usize = 0;
    while i < s.len()
        invariant
            i <= s.len(),
            done@.map_values(|v: Vec<char>| v@).push(cur@) == split(s@.take(i as int), sep),
        decreases s.len() - i,
    {
        let c = s[i];
        let ghost before = s@.take(i as int);
        assert(s@.take(i + 1).drop_last() =~= before);
        proof {
            lemma_split_nonempty(before, sep);
        }
        if c == sep {
            let ghost old_done = done@;
            done.push(cur);
            cur = Vec::new();
            assert(done@.map_values(|v: Vec<char>| v@) =~= old_done.map_values(|v: Vec<char>| v@).push(
                split(before, sep).last(),
            ));
        } else {
            cur.push(c);
        }
        i = i + 1;
        assert(done@.map_values(|v: Vec<char>| v@).push(cur@) =~= split(s@.take(i as int), sep));
    }
    assert(s@.take(s@.len() as int) =~= s@);
    done.push(cur);
    assert(done@.map_values(|v: Vec<char>| v@) =~= split(s@, sep));
    done
}

/// `s` read as a decimal, as `decimal` states.
pub fn parse_decimal(s: &Vec<char>) -> (r: Option<u64>)
    ensures
        r == decimal(s@),
{
    if s.len() == 0 {
        return None;
    }
    let mut v: u64 = 0;
    let mut i: usize = 0;
    while i < s.len()
        invariant
            i <= s.len(),
            forall|k: int| 0 <= k < i ==> is_digit(#[trigger] s@[k]),
            v as nat == digits_value(s@.take(i as int)),
        decreases s.len() - i,
    {
        let c = s[i];
        assert(s@.take(i + 1).drop_last() =~= s@.take(i as int));
        if !('0' <= c && c <= '9') {
            assert(!all_digits(s@));
            return None;
        }
        let d: u64 = (c as u32 - '0' as u32) as u64;
        if v > (u64::MAX - d) / 10 {
            proof {
                lemma_digits_prefix(s@, i + 1);
            }
            return None;
        }
        v = v * 10 + d;
        i = i + 1;
    }
    assert(s@.take(s@.len() as int) =~= s@);
    Some(v)
}


/// Relies on `String`'s `FromIterator<char>`: the string holds the characters in order.
#[verifier::external_body]
pub(crate) fn string_of(v: &Vec<char>) -> (r: String)
    ensures
        r@ == v@,
{
    v.iter().collect()
}

} // verus!
