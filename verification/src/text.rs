//! Strings as sequences of characters.

use vstd::prelude::*;

verus! {

/// The characters of `s`, in order.
pub fn chars_of(s: &str) -> (v: Vec<char>)
    ensures
        v@ == s@,
{
    let mut v: Vec<char> = Vec::new();
    for c in it: s.chars()
        invariant
            it.seq() == s@,
            v@ == it.seq().take(it.index()),
    {
        v.push(c);
    }
    v
}

/// Whether the characters of `v` from `from` up to `to` spell `word`.
pub fn spells(v: &Vec<char>, from: usize, to: usize, word: &str) -> (r: bool)
    requires
        from <= to <= v@.len(),
    ensures
        r == (v@.subrange(from as int, to as int) == word@),
{
    let w = chars_of(word);
    if w.len() != to - from {
        return false;
    }
    let mut k: usize = 0;
    while k < w.len()
        invariant
            from <= to <= v@.len(),
            w@ == word@,
            w@.len() == to - from,
            k <= w@.len(),
            forall|j: int| 0 <= j < k ==> v@[from + j] == w@[j],
        decreases w@.len() - k,
    {
        if v[from + k] != w[k] {
            return false;
        }
        k += 1;
    }
    assert(v@.subrange(from as int, to as int) =~= word@);
    true
}

/// Whether two strings hold the same characters.
pub fn same_text(a: &str, b: &str) -> (r: bool)
    ensures
        r == (a@ == b@),
{
    let v = chars_of(a);
    assert(v@.subrange(0, v@.len() as int) =~= v@);
    spells(&v, 0, v.len(), b)
}

/// Where `c` first stands in `s`, or the length of `s` where it does not occur.
pub open spec fn first_index<T>(s: Seq<T>, c: T) -> int
    decreases s.len(),
{
    if s.len() == 0 || s[0] == c {
        0
    } else {
        1 + first_index(s.drop_first(), c)
    }
}

/// `first_index` is the one place before which `c` does not stand and at which it does.
pub proof fn lemma_first_index<T>(s: Seq<T>, c: T, p: int)
    requires
        0 <= p <= s.len(),
        forall|i: int| 0 <= i < p ==> s[i] != c,
        p < s.len() ==> s[p] == c,
    ensures
        first_index(s, c) == p,
    decreases s.len(),
{
    if s.len() > 0 && s[0] != c {
        let rest = s.drop_first();
        assert forall|i: int| 0 <= i < p - 1 implies rest[i] != c by {}
        lemma_first_index(rest, c, p - 1);
    }
}

/// Where `c` first stands in `v` at or after `from`, or the length of `v`.
pub fn find_from(v: &Vec<char>, from: usize, c: char) -> (p: usize)
    requires
        from <= v@.len(),
    ensures
        from <= p <= v@.len(),
        p - from == first_index(v@.skip(from as int), c),
{
    let ghost rest = v@.skip(from as int);
    let mut p: usize = from;
    while p < v.len() && v[p] != c
        invariant
            from <= p <= v@.len(),
            rest == v@.skip(from as int),
            forall|i: int| 0 <= i < p - from ==> rest[i] != c,
        decreases v@.len() - p,
    {
        p += 1;
    }
    proof {
        lemma_first_index(rest, c, p - from);
    }
    p
}

/// The views of a list of strings.
pub open spec fn texts(v: Seq<String>) -> Seq<Seq<char>> {
    Seq::new(v.len(), |i: int| v[i]@)
}

/// Where a string that reads `word` first stands in `v`, or the length of `v`.
pub fn find_text(v: &Vec<String>, word: &str) -> (p: usize)
    ensures
        p <= v@.len(),
        p == first_index(texts(v@), word@),
{
    let ghost all = texts(v@);
    let mut p: usize = 0;
    while p < v.len() && !same_text(v[p].as_str(), word)
        invariant
            p <= v@.len(),
            all == texts(v@),
            forall|i: int| 0 <= i < p ==> all[i] != word@,
        decreases v@.len() - p,
    {
        p += 1;
    }
    proof {
        lemma_first_index(all, word@, p as int);
    }
    p
}

/// How many times `c` stands in `s`.
pub open spec fn occurrences<T>(s: Seq<T>, c: T) -> nat
    decreases s.len(),
{
    if s.len() == 0 {
        0
    } else if s.last() == c {
        occurrences(s.drop_last(), c) + 1
    } else {
        occurrences(s.drop_last(), c)
    }
}

/// What occurs in `s` has a first place in it.
pub proof fn lemma_occurs_has_first_index<T>(s: Seq<T>, c: T)
    requires
        occurrences(s, c) > 0,
    ensures
        0 <= first_index(s, c) < s.len(),
{
    lemma_first_index_in_bounds(s, c);
    if first_index(s, c) >= s.len() {
        lemma_first_index_none(s, c);
        lemma_occurrences_none(s, c);
    }
}

/// `first_index` is a place of `s` or its length.
pub proof fn lemma_first_index_in_bounds<T>(s: Seq<T>, c: T)
    ensures
        0 <= first_index(s, c) <= s.len(),
    decreases s.len(),
{
    if s.len() > 0 && s[0] != c {
        lemma_first_index_in_bounds(s.drop_first(), c);
    }
}

/// Where `first_index` is the length of `s`, `c` stands nowhere in `s`.
pub proof fn lemma_first_index_none<T>(s: Seq<T>, c: T)
    requires
        first_index(s, c) >= s.len(),
    ensures
        forall|i: int| 0 <= i < s.len() ==> s[i] != c,
    decreases s.len(),
{
    if s.len() > 0 {
        let rest = s.drop_first();
        lemma_first_index_none(rest, c);
        assert forall|i: int| 0 <= i < s.len() implies s[i] != c by {
            if i > 0 {
                assert(rest[i - 1] == s[i]);
            }
        }
    }
}

/// What stands nowhere in `s` occurs no times.
pub proof fn lemma_occurrences_none<T>(s: Seq<T>, c: T)
    requires
        forall|i: int| 0 <= i < s.len() ==> s[i] != c,
    ensures
        occurrences(s, c) == 0,
    decreases s.len(),
{
    if s.len() > 0 {
        let rest = s.drop_last();
        assert forall|i: int| 0 <= i < rest.len() implies rest[i] != c by {}
        lemma_occurrences_none(rest, c);
    }
}

/// How many strings of `v` read `word`.
pub fn count_text(v: &Vec<String>, word: &str) -> (n: usize)
    ensures
        n == occurrences(texts(v@), word@),
{
    let ghost all = texts(v@);
    let mut n: usize = 0;
    let mut i: usize = 0;
    while i < v.len()
        invariant
            i <= v@.len(),
            all == texts(v@),
            n <= i,
            n == occurrences(all.take(i as int), word@),
        decreases v@.len() - i,
    {
        assert(all.take(i + 1).drop_last() =~= all.take(i as int));
        if same_text(v[i].as_str(), word) {
            n += 1;
        }
        i += 1;
    }
    assert(all.take(i as int) =~= all);
    n
}

/// Where `c` first stands in `v` from `from` up to `to`, or `to` where it does not.
pub fn find_between(v: &Vec<char>, from: usize, to: usize, c: char) -> (p: usize)
    requires
        from <= to <= v@.len(),
    ensures
        from <= p <= to,
        p - from == first_index(v@.subrange(from as int, to as int), c),
{
    let ghost part = v@.subrange(from as int, to as int);
    let mut p: usize = from;
    while p < to && v[p] != c
        invariant
            from <= p <= to <= v@.len(),
            part == v@.subrange(from as int, to as int),
            forall|i: int| 0 <= i < p - from ==> part[i] != c,
        decreases to - p,
    {
        p += 1;
    }
    proof {
        lemma_first_index(part, c, p - from);
    }
    p
}

/// The pieces of `s` between occurrences of `sep`: one more piece than separators.
pub open spec fn fields(s: Seq<char>, sep: char) -> Seq<Seq<char>>
    decreases s.len(),
{
    let p = first_index(s, sep);
    if 0 <= p < s.len() {
        seq![s.take(p)] + fields(s.skip(p + 1), sep)
    } else {
        seq![s]
    }
}

/// White space as Unicode defines it (the property `White_Space`).
pub open spec fn is_space(c: char) -> bool {
    let n = c as u32;
    ||| 0x09 <= n <= 0x0D
    ||| n == 0x20
    ||| n == 0x85
    ||| n == 0xA0
    ||| n == 0x1680
    ||| 0x2000 <= n <= 0x200A
    ||| n == 0x2028
    ||| n == 0x2029
    ||| n == 0x202F
    ||| n == 0x205F
    ||| n == 0x3000
}

/// Whether `c` is white space.
pub fn space(c: char) -> (r: bool)
    ensures
        r == is_space(c),
{
    let n: u32 = c as u32;
    (0x09 <= n && n <= 0x0D) || n == 0x20 || n == 0x85 || n == 0xA0 || n == 0x1680 || (0x2000 <= n
        && n <= 0x200A) || n == 0x2028 || n == 0x2029 || n == 0x202F || n == 0x205F || n == 0x3000
}

/// `s` without the white space that it begins with.
pub open spec fn trim_start(s: Seq<char>) -> Seq<char>
    decreases s.len(),
{
    if s.len() > 0 && is_space(s[0]) {
        trim_start(s.drop_first())
    } else {
        s
    }
}

/// `s` without the white space that it ends with.
pub open spec fn trim_end(s: Seq<char>) -> Seq<char>
    decreases s.len(),
{
    if s.len() > 0 && is_space(s.last()) {
        trim_end(s.drop_last())
    } else {
        s
    }
}

/// `s` without the white space around it.
pub open spec fn trimmed(s: Seq<char>) -> Seq<char> {
    trim_end(trim_start(s))
}

/// The bounds of what is left of `v[from..to]` without the white space around it.
pub fn trim_bounds(v: &Vec<char>, from: usize, to: usize) -> (r: (usize, usize))
    requires
        from <= to <= v@.len(),
    ensures
        from <= r.0 <= r.1 <= to,
        v@.subrange(r.0 as int, r.1 as int) == trimmed(v@.subrange(from as int, to as int)),
{
    let mut a: usize = from;
    while a < to && space(v[a])
        invariant
            from <= a <= to <= v@.len(),
            trim_start(v@.subrange(a as int, to as int)) == trim_start(
                v@.subrange(from as int, to as int),
            ),
        decreases to - a,
    {
        assert(v@.subrange(a as int, to as int).drop_first() =~= v@.subrange(a + 1, to as int));
        a += 1;
    }
    let mut b: usize = to;
    while a < b && space(v[b - 1])
        invariant
            a <= b <= to <= v@.len(),
            trim_end(v@.subrange(a as int, b as int)) == trim_end(v@.subrange(a as int, to as int)),
        decreases b - a,
    {
        assert(v@.subrange(a as int, b as int).drop_last() =~= v@.subrange(a as int, b - 1));
        b -= 1;
    }
    (a, b)
}

} // verus!
