//! Operations on text, stated over sequences of characters.

use vstd::prelude::*;

verus! {

/// The characters with the Unicode property `White_Space`.
pub open spec fn is_white(c: char) -> bool {
    ||| '\u{9}' <= c <= '\u{d}'
    ||| c == ' '
    ||| c == '\u{85}'
    ||| c == '\u{a0}'
    ||| c == '\u{1680}'
    ||| '\u{2000}' <= c <= '\u{200a}'
    ||| c == '\u{2028}'
    ||| c == '\u{2029}'
    ||| c == '\u{202f}'
    ||| c == '\u{205f}'
    ||| c == '\u{3000}'
}

/// `s` without its leading white space.
pub open spec fn trimmed_start(s: Seq<char>) -> Seq<char>
    decreases s.len(),
{
    if s.len() > 0 && is_white(s[0]) {
        trimmed_start(s.skip(1))
    } else {
        s
    }
}

/// `s` without its trailing white space.
pub open spec fn trimmed_end(s: Seq<char>) -> Seq<char>
    decreases s.len(),
{
    if s.len() > 0 && is_white(s.last()) {
        trimmed_end(s.drop_last())
    } else {
        s
    }
}

/// `s` without white space at either end.
pub open spec fn trimmed(s: Seq<char>) -> Seq<char> {
    trimmed_end(trimmed_start(s))
}

/// `p` stands in `s` at index `i`.
pub open spec fn occurs_at(s: Seq<char>, p: Seq<char>, i: int) -> bool {
    0 <= i && i + p.len() <= s.len() && s.subrange(i, i + p.len()) =~= p
}

/// `p` stands somewhere in `s`.
pub open spec fn has_infix(s: Seq<char>, p: Seq<char>) -> bool {
    exists|i: int| occurs_at(s, p, i)
}

/// `s` begins with `p`.
pub open spec fn has_prefix(s: Seq<char>, p: Seq<char>) -> bool {
    occurs_at(s, p, 0)
}

/// `s` ends with `p`.
pub open spec fn has_suffix(s: Seq<char>, p: Seq<char>) -> bool {
    occurs_at(s, p, s.len() - p.len())
}

/// The first index, from `i` on, at which `p` stands in `s`.
pub open spec fn find_from(s: Seq<char>, p: Seq<char>, i: int) -> Option<int>
    decreases s.len() - i,
{
    if i + p.len() > s.len() {
        None
    } else if occurs_at(s, p, i) {
        Some(i)
    } else {
        find_from(s, p, i + 1)
    }
}

/// The first index at which `p` stands in `s`.
pub open spec fn found(s: Seq<char>, p: Seq<char>) -> Option<int> {
    find_from(s, p, 0)
}

/// The length of what precedes the first `c` in `s`, all of `s` where there is none.
pub open spec fn until_char(s: Seq<char>, c: char) -> nat
    decreases s.len(),
{
    if s.len() == 0 || s[0] == c {
        0
    } else {
        1 + until_char(s.skip(1), c)
    }
}

/// The length of what follows the last `c` in `s`, all of `s` where there is none.
pub open spec fn after_char(s: Seq<char>, c: char) -> nat
    decreases s.len(),
{
    if s.len() == 0 || s.last() == c {
        0
    } else {
        1 + after_char(s.drop_last(), c)
    }
}

/// A line without the carriage return that closes it.
pub open spec fn without_return(s: Seq<char>) -> Seq<char> {
    if s.len() > 0 && s.last() == '\r' {
        s.drop_last()
    } else {
        s
    }
}

/// The lines of `s`: each ends in a line feed, with or without a carriage return before it,
/// and the last one may end with the text.
pub open spec fn lines_of(s: Seq<char>) -> Seq<Seq<char>>
    decreases s.len(),
{
    let n = until_char(s, '\n');
    if s.len() == 0 {
        Seq::empty()
    } else if n >= s.len() {
        seq![s]
    } else {
        seq![without_return(s.take(n as int))] + lines_of(s.skip(n as int + 1))
    }
}

pub proof fn lemma_until_char(s: Seq<char>, c: char)
    ensures
        until_char(s, c) <= s.len(),
        until_char(s, c) < s.len() ==> s[until_char(s, c) as int] == c,
        forall|i: int| 0 <= i < until_char(s, c) ==> s[i] != c,
    decreases s.len(),
{
    if s.len() != 0 && s[0] != c {
        lemma_until_char(s.skip(1), c);
        assert forall|i: int| 0 <= i < until_char(s, c) implies s[i] != c by {
            if i > 0 {
                assert(s.skip(1)[i - 1] == s[i]);
            }
        }
    }
}

/// What precedes the first `c` is fixed by where that `c` stands.
pub proof fn lemma_until_char_is(s: Seq<char>, c: char, n: int)
    requires
        0 <= n <= s.len(),
        n < s.len() ==> s[n] == c,
        forall|i: int| 0 <= i < n ==> s[i] != c,
    ensures
        until_char(s, c) == n,
{
    lemma_until_char(s, c);
    let m = until_char(s, c) as int;
    if m < n {
        assert(s[m] != c);
    } else if n < m {
        assert(s[n] != c);
    }
}

pub proof fn lemma_after_char(s: Seq<char>, c: char)
    ensures
        after_char(s, c) <= s.len(),
        after_char(s, c) < s.len() ==> s[s.len() - 1 - after_char(s, c)] == c,
        forall|i: int| s.len() - after_char(s, c) <= i < s.len() ==> s[i] != c,
    decreases s.len(),
{
    if s.len() != 0 && s.last() != c {
        let t = s.drop_last();
        lemma_after_char(t, c);
        assert forall|i: int| s.len() - after_char(s, c) <= i < s.len() implies s[i] != c by {
            if i < t.len() {
                assert(t[i] == s[i]);
            }
        }
    }
}

/// What follows the last `c` is fixed by where that `c` stands.
pub proof fn lemma_after_char_is(s: Seq<char>, c: char, n: int)
    requires
        0 <= n <= s.len(),
        n < s.len() ==> s[s.len() - 1 - n] == c,
        forall|i: int| s.len() - n <= i < s.len() ==> s[i] != c,
    ensures
        after_char(s, c) == n,
{
    lemma_after_char(s, c);
    let m = after_char(s, c) as int;
    if m < n {
        assert(s[s.len() - 1 - m] != c);
    } else if n < m {
        assert(s[s.len() - 1 - n] != c);
    }
}

/// A search that finds nothing before `k` goes on from `k`.
proof fn lemma_find_from_skips(s: Seq<char>, p: Seq<char>, i: int, k: int)
    requires
        i <= k,
        k + p.len() <= s.len() + 1,
        forall|j: int| i <= j < k ==> !occurs_at(s, p, j),
    ensures
        find_from(s, p, i) == find_from(s, p, k),
    decreases k - i,
{
    if i < k {
        assert(!occurs_at(s, p, i));
        lemma_find_from_skips(s, p, i + 1, k);
    }
}

/// The index that `found` gives is that of the first occurrence, and there is one if and only if
/// the pattern occurs.
pub proof fn lemma_found(s: Seq<char>, p: Seq<char>)
    ensures
        found(s, p) is Some <==> has_infix(s, p),
        found(s, p) matches Some(i) ==> occurs_at(s, p, i) && forall|j: int|
            0 <= j < i ==> !occurs_at(s, p, j),
{
    lemma_find_from(s, p, 0);
    if has_infix(s, p) {
        let i = choose|i: int| occurs_at(s, p, i);
        assert(occurs_at(s, p, i));
    }
}

proof fn lemma_find_from(s: Seq<char>, p: Seq<char>, k: int)
    requires
        0 <= k,
    ensures
        find_from(s, p, k) is None ==> forall|j: int| k <= j ==> !occurs_at(s, p, j),
        find_from(s, p, k) matches Some(i) ==> k <= i && occurs_at(s, p, i) && forall|j: int|
            k <= j < i ==> !occurs_at(s, p, j),
    decreases s.len() - k,
{
    if k + p.len() <= s.len() && !occurs_at(s, p, k) {
        lemma_find_from(s, p, k + 1);
    }
}

/// White space, as Unicode defines it.
pub fn is_whitespace(c: char) -> (r: bool)
    ensures
        r == is_white(c),
{
    ('\u{9}' <= c && c <= '\u{d}') || c == ' ' || c == '\u{85}' || c == '\u{a0}' || c == '\u{1680}'
        || ('\u{2000}' <= c && c <= '\u{200a}') || c == '\u{2028}' || c == '\u{2029}' || c
        == '\u{202f}' || c == '\u{205f}' || c == '\u{3000}'
}

/// The characters of `s`.
pub fn chars_of(s: &str) -> (r: Vec<char>)
    ensures
        r@ == s@,
{
    let mut r: Vec<char> = Vec::new();
    for c in iter: s.chars()
        invariant
            iter.seq() == s@,
            r@ =~= s@.take(iter.index() as int),
    {
        r.push(c);
    }
    r
}

/// `p` stands in `s` at index `i`.
fn matches_at(s: &Vec<char>, p: &Vec<char>, i: usize) -> (r: bool)
    requires
        i + p@.len() <= s@.len(),
    ensures
        r == occurs_at(s@, p@, i as int),
{
    let total: usize = s.len();
    let mut k: usize = 0;
    while k < p.len()
        invariant
            i + p@.len() <= s@.len() == total,
            k <= p@.len(),
            forall|j: int| 0 <= j < k ==> s@[i + j] == p@[j],
        decreases p@.len() - k,
    {
        if s[i + k] != p[k] {
            assert(s@.subrange(i as int, i + p@.len())[k as int] != p@[k as int]);
            return false;
        }
        k += 1;
    }
    assert(s@.subrange(i as int, i + p@.len()) =~= p@);
    true
}

/// The index of the first occurrence of `p` in `s`.
pub fn find(s: &str, p: &str) -> (r: Option<usize>)
    ensures
        match r {
            Some(i) => found(s@, p@) == Some(i as int) && i + p@.len() <= s@.len(),
            None => found(s@, p@) is None,
        },
{
    let text: Vec<char> = chars_of(s);
    let pattern: Vec<char> = chars_of(p);
    if text.len() < pattern.len() {
        return None;
    }
    let last: usize = text.len() - pattern.len();
    let mut i: usize = 0;
    loop
        invariant
            text@ == s@,
            pattern@ == p@,
            i <= last,
            last + p@.len() == s@.len(),
            forall|j: int| 0 <= j < i ==> !occurs_at(s@, p@, j),
        decreases last - i,
    {
        if matches_at(&text, &pattern, i) {
            proof {
                lemma_find_from_skips(s@, p@, 0, i as int);
            }
            return Some(i);
        }
        if i == last {
            proof {
                lemma_find_from_skips(s@, p@, 0, i as int + 1);
            }
            return None;
        }
        i += 1;
    }
}

/// `p` stands somewhere in `s`.
pub fn contains(s: &str, p: &str) -> (r: bool)
    ensures
        r == has_infix(s@, p@),
{
    proof {
        lemma_found(s@, p@);
    }
    find(s, p).is_some()
}

/// `s` begins with `p`.
pub fn starts_with(s: &str, p: &str) -> (r: bool)
    ensures
        r == has_prefix(s@, p@),
{
    let s: Vec<char> = chars_of(s);
    let p: Vec<char> = chars_of(p);
    if s.len() < p.len() {
        return false;
    }
    matches_at(&s, &p, 0)
}

/// `s` ends with `p`.
pub fn ends_with(s: &str, p: &str) -> (r: bool)
    ensures
        r == has_suffix(s@, p@),
{
    let s: Vec<char> = chars_of(s);
    let p: Vec<char> = chars_of(p);
    if s.len() < p.len() {
        return false;
    }
    matches_at(&s, &p, s.len() - p.len())
}

/// `a` and `b` are the same text.
pub fn same(a: &str, b: &str) -> (r: bool)
    ensures
        r == (a@ == b@),
{
    let a: Vec<char> = chars_of(a);
    let b: Vec<char> = chars_of(b);
    if a.len() != b.len() {
        return false;
    }
    let r: bool = matches_at(&a, &b, 0);
    assert(a@.subrange(0, a@.len() as int) =~= a@);
    r
}

/// The length of what precedes the first `c` in `s`.
pub fn before(s: &str, c: char) -> (n: usize)
    ensures
        n == until_char(s@, c),
        n <= s@.len(),
{
    let s: Vec<char> = chars_of(s);
    let mut n: usize = 0;
    while n < s.len() && s[n] != c
        invariant
            n <= s@.len(),
            forall|i: int| 0 <= i < n ==> s@[i] != c,
        decreases s@.len() - n,
    {
        n += 1;
    }
    proof {
        lemma_until_char_is(s@, c, n as int);
    }
    n
}

/// The index behind the last `c` in `s`, zero where there is none.
pub fn behind_last(s: &str, c: char) -> (n: usize)
    ensures
        n <= s@.len(),
        n == s@.len() - after_char(s@, c),
{
    let s: Vec<char> = chars_of(s);
    let mut n: usize = s.len();
    while n > 0 && s[n - 1] != c
        invariant
            n <= s@.len(),
            forall|i: int| n <= i < s@.len() ==> s@[i] != c,
        decreases n,
    {
        n -= 1;
    }
    proof {
        lemma_after_char_is(s@, c, s@.len() - n);
    }
    n
}

/// `s` without white space at either end.
pub fn trim<'a>(s: &'a str) -> (r: &'a str)
    ensures
        r@ == trimmed(s@),
{
    let c: Vec<char> = chars_of(s);
    let mut from: usize = 0;
    assert(s@.skip(0) =~= s@);
    while from < c.len() && is_whitespace(c[from])
        invariant
            c@ == s@,
            from <= c@.len(),
            trimmed_start(s@) == trimmed_start(s@.skip(from as int)),
        decreases c@.len() - from,
    {
        proof {
            let rest = s@.skip(from as int);
            assert(rest[0] == s@[from as int]);
            assert(rest.skip(1) =~= s@.skip(from + 1));
        }
        from += 1;
    }
    let mut to: usize = c.len();
    proof {
        let rest = s@.skip(from as int);
        if from < c@.len() {
            assert(rest[0] == s@[from as int]);
        }
        assert(trimmed_start(rest) == rest);
        assert(rest =~= s@.subrange(from as int, to as int));
    }
    while to > from && is_whitespace(c[to - 1])
        invariant
            c@ == s@,
            from <= to <= c@.len(),
            trimmed(s@) == trimmed_end(s@.subrange(from as int, to as int)),
        decreases to,
    {
        proof {
            let rest = s@.subrange(from as int, to as int);
            assert(rest.last() == s@[to - 1]);
            assert(rest.drop_last() =~= s@.subrange(from as int, to - 1));
        }
        to -= 1;
    }
    proof {
        let rest = s@.subrange(from as int, to as int);
        if from < to {
            assert(rest.last() == s@[to - 1]);
        }
    }
    s.substring_char(from, to)
}

/// What the texts of a list hold.
pub open spec fn views(v: Seq<&str>) -> Seq<Seq<char>> {
    Seq::new(v.len(), |i: int| v[i]@)
}

/// The lines of `s`.
pub fn lines<'a>(s: &'a str) -> (r: Vec<&'a str>)
    ensures
        views(r@) == lines_of(s@),
{
    let c: Vec<char> = chars_of(s);
    let mut r: Vec<&'a str> = Vec::new();
    let mut pos: usize = 0;
    assert(s@.skip(0) =~= s@);
    assert(views(r@) + lines_of(s@) =~= lines_of(s@));
    while pos < c.len()
        invariant
            c@ == s@,
            pos <= c@.len(),
            views(r@) + lines_of(s@.skip(pos as int)) == lines_of(s@),
        decreases c@.len() - pos,
    {
        let ghost rest = s@.skip(pos as int);
        let mut end: usize = pos;
        while end < c.len() && c[end] != '\n'
            invariant
                c@ == s@,
                pos <= end <= c@.len(),
                forall|i: int| pos <= i < end ==> s@[i] != '\n',
            decreases c@.len() - end,
        {
            end += 1;
        }
        let ghost n = end - pos;
        proof {
            lemma_until_char_is(rest, '\n', n);
        }
        let ghost before = r@;
        if end == c.len() {
            r.push(s.substring_char(pos, end));
            proof {
                assert(s@.subrange(pos as int, end as int) =~= rest);
                assert(views(r@) =~= views(before) + seq![rest]);
                assert(s@.skip(end as int).len() == 0);
                assert(views(r@) + lines_of(s@.skip(end as int)) =~= views(r@));
            }
            pos = end;
        } else {
            let stop: usize = if end > pos && c[end - 1] == '\r' {
                end - 1
            } else {
                end
            };
            r.push(s.substring_char(pos, stop));
            proof {
                let line = rest.take(n);
                if n > 0 {
                    assert(line.last() == s@[end - 1]);
                }
                assert(s@.subrange(pos as int, stop as int) =~= without_return(line));
                assert(rest.skip(n + 1) =~= s@.skip(end + 1));
                assert(views(r@) =~= views(before) + seq![without_return(line)]);
                assert(views(r@) + lines_of(s@.skip(end + 1)) =~= views(before) + (
                seq![without_return(line)] + lines_of(s@.skip(end + 1))));
            }
            pos = end + 1;
        }
    }
    proof {
        assert(s@.skip(pos as int).len() == 0);
        assert(views(r@) + lines_of(s@.skip(pos as int)) =~= views(r@));
    }
    r
}

/// The decimal digit for `d`.
pub open spec fn digit_of(d: nat) -> char {
    "0123456789"@[d as int]
}

/// `n` in decimal, without leading zeros.
pub open spec fn decimal_of(n: nat) -> Seq<char>
    decreases n,
{
    if n < 10 {
        seq![digit_of(n)]
    } else {
        decimal_of(n / 10).push(digit_of(n % 10))
    }
}

/// The text that holds `a` and then `b`.
pub fn join(a: &str, b: &str) -> (r: String)
    ensures
        r@ == a@ + b@,
{
    let mut r: String = String::from_str(a);
    r.append(b);
    r
}

/// `n` in decimal.
pub fn decimal(n: u64) -> (r: String)
    ensures
        r@ == decimal_of(n as nat),
    decreases n,
{
    proof {
        reveal_strlit("0123456789");
    }
    let digits: &str = "0123456789";
    if n < 10 {
        let d: &str = digits.substring_char(n as usize, n as usize + 1);
        assert(d@ =~= seq![digit_of(n as nat)]);
        String::from_str(d)
    } else {
        let mut r: String = decimal(n / 10);
        let k: usize = (n % 10) as usize;
        let d: &str = digits.substring_char(k, k + 1);
        let ghost front = r@;
        r.append(d);
        assert(d@ =~= seq![digit_of((n % 10) as nat)]);
        assert(r@ =~= front.push(digit_of((n % 10) as nat)));
        r
    }
}

/// The text in an optional string.
pub open spec fn opt_text(s: Option<String>) -> Option<Seq<char>> {
    match s {
        Some(s) => Some(s@),
        None => None,
    }
}

/// The lowercase equivalent of a text, as Unicode defines it.
pub uninterp spec fn lowercase(s: Seq<char>) -> Seq<char>;

/// The lowercase equivalent of an ASCII character.
pub open spec fn ascii_lowercase(c: char) -> char {
    if 'A' <= c <= 'Z' {
        (c as u8 + 32) as char
    } else {
        c
    }
}

/// `str::to_lowercase` gives the lowercase equivalent of the whole text. In a text that is all
/// ASCII only the letters from `A` to `Z` change, each to its small letter.
pub assume_specification[ str::to_lowercase ](s: &str) -> (r: String)
    ensures
        r@ == lowercase(s@),
        vstd::utf8::is_ascii_chars(s@) ==> r@ == s@.map_values(|c: char| ascii_lowercase(c)),
;

/// Trimming what is trimmed changes nothing.
pub proof fn law_trim_is_final(s: Seq<char>)
    ensures
        trimmed(trimmed(s)) == trimmed(s),
{
    lemma_trimmed_start(s);
    lemma_trimmed_end(trimmed_start(s));
    let t = trimmed(s);
    if t.len() > 0 {
        assert(t[0] == trimmed_start(s)[0]);
    }
}

proof fn lemma_trimmed_start(s: Seq<char>)
    ensures
        trimmed_start(s).len() > 0 ==> !is_white(trimmed_start(s)[0]),
    decreases s.len(),
{
    if s.len() > 0 && is_white(s[0]) {
        lemma_trimmed_start(s.skip(1));
    }
}

proof fn lemma_trimmed_end(s: Seq<char>)
    ensures
        trimmed_end(s).len() <= s.len(),
        trimmed_end(s) == s.take(trimmed_end(s).len() as int),
        trimmed_end(s).len() > 0 ==> !is_white(trimmed_end(s).last()),
    decreases s.len(),
{
    if s.len() > 0 && is_white(s.last()) {
        lemma_trimmed_end(s.drop_last());
        let n = trimmed_end(s).len() as int;
        assert(s.drop_last().take(n) =~= s.take(n));
    } else {
        assert(s.take(s.len() as int) =~= s);
    }
}

/// The value of a series of decimal digits, which may be empty.
pub open spec fn digits_value(s: Seq<char>) -> Option<nat>
    decreases s.len(),
{
    if s.len() == 0 {
        Some(0)
    } else {
        match digits_value(s.drop_last()) {
            Some(n) if '0' <= s.last() <= '9' => Some((n * 10 + (s.last() as u32 - 48)) as nat),
            _ => None,
        }
    }
}

/// The number that a text holds in decimal, with or without a plus sign, where it is not greater
/// than `max`.
pub open spec fn number_of(s: Seq<char>, max: nat) -> Option<nat> {
    let digits = if s.len() > 0 && s[0] == '+' {
        s.skip(1)
    } else {
        s
    };
    match digits_value(digits) {
        Some(n) if digits.len() > 0 && n <= max => Some(n),
        _ => None,
    }
}

/// What is no number, or too large, stays so when more digits follow.
proof fn lemma_digits_prefix(s: Seq<char>, k: int, max: nat)
    requires
        0 <= k <= s.len(),
        match digits_value(s.take(k)) {
            Some(n) => n > max,
            None => true,
        },
    ensures
        match digits_value(s) {
            Some(n) => n > max,
            None => true,
        },
    decreases s.len() - k,
{
    if k == s.len() {
        assert(s.take(k) =~= s);
    } else {
        assert(s.take(k + 1).drop_last() =~= s.take(k));
        lemma_digits_prefix(s, k + 1, max);
    }
}

/// The number that a text holds in decimal, with or without a plus sign.
pub fn parse_number(s: &str, max: u64) -> (r: Option<u64>)
    ensures
        match r {
            Some(n) => number_of(s@, max as nat) == Some(n as nat),
            None => number_of(s@, max as nat) is None,
        },
{
    let c: Vec<char> = chars_of(s);
    let start: usize = if c.len() > 0 && c[0] == '+' {
        1
    } else {
        0
    };
    let ghost digits = s@.skip(start as int);
    assert(s@.skip(0) =~= s@);
    if start == c.len() {
        return None;
    }
    let mut n: u64 = 0;
    let mut i: usize = start;
    assert(digits.take(0) =~= Seq::empty());
    while i < c.len()
        invariant
            c@ == s@,
            start <= i <= c@.len(),
            digits == s@.skip(start as int),
            digits == (if s@.len() > 0 && s@[0] == '+' {
                s@.skip(1)
            } else {
                s@
            }),
            n <= max,
            digits_value(digits.take(i - start)) == Some(n as nat),
        decreases c@.len() - i,
    {
        let x: char = c[i];
        let ghost k = i - start;
        proof {
            assert(digits[k] == x);
            assert(digits.take(k + 1).drop_last() =~= digits.take(k));
        }
        if x < '0' || x > '9' {
            proof {
                lemma_digits_prefix(digits, k + 1, max as nat);
            }
            return None;
        }
        let d: u64 = (x as u32 - 48) as u64;
        if d > max || n > (max - d) / 10 {
            proof {
                assert(n * 10 + d > max);
                lemma_digits_prefix(digits, k + 1, max as nat);
            }
            return None;
        }
        n = n * 10 + d;
        i += 1;
    }
    assert(digits.take(i - start) =~= digits);
    Some(n)
}

/// A number in decimal reads back as itself, with or without a plus sign before it.
pub proof fn law_decimal_reads_back(n: nat, max: nat)
    requires
        n <= max,
    ensures
        number_of(decimal_of(n), max) == Some(n),
        number_of("+"@ + decimal_of(n), max) == Some(n),
{
    lemma_decimal_digits(n);
    reveal_strlit("+");
    let digits = decimal_of(n);
    assert(("+"@ + digits).skip(1) =~= digits);
}

proof fn lemma_digit(d: nat)
    requires
        d < 10,
    ensures
        digit_of(d) as u32 == 48 + d,
{
    reveal_strlit("0123456789");
    let s = "0123456789"@;
    assert(s[0] == '0' && s[1] == '1' && s[2] == '2' && s[3] == '3' && s[4] == '4');
    assert(s[5] == '5' && s[6] == '6' && s[7] == '7' && s[8] == '8' && s[9] == '9');
}

proof fn lemma_decimal_digits(n: nat)
    ensures
        digits_value(decimal_of(n)) == Some(n),
        decimal_of(n).len() > 0,
        decimal_of(n)[0] != '+',
    decreases n,
{
    let digits = decimal_of(n);
    lemma_digit(n % 10);
    if n < 10 {
        assert(digits.drop_last() =~= Seq::empty());
        assert(digits_value(digits.drop_last()) == Some(0nat));
        assert(digits.last() == digit_of(n));
    } else {
        lemma_decimal_digits(n / 10);
        assert(digits.drop_last() =~= decimal_of(n / 10));
    }
}

/// White space is what Unicode says it is: in ASCII the space and the five control characters from
/// tab to carriage return, and beyond it the next line, the no-break spaces, the spaces of
/// typography and the separators of lines and paragraphs.
pub proof fn law_white_space(c: char)
    ensures
        ({
            let code = c as u32;
            is_white(c) <==> code == 9 || code == 10 || code == 11 || code == 12 || code == 13
                || code == 32 || code == 133 || code == 160 || code == 5760 || 8192 <= code <= 8202
                || code == 8232 || code == 8233 || code == 8239 || code == 8287 || code == 12288
        }),
{
}

/// Trimming takes away the white space around a text, all of it, and nothing else.
pub proof fn law_trim_takes_white_space_off(before: Seq<char>, text: Seq<char>, behind: Seq<char>)
    requires
        forall|i: int| 0 <= i < before.len() ==> is_white(#[trigger] before[i]),
        forall|i: int| 0 <= i < behind.len() ==> is_white(#[trigger] behind[i]),
        text.len() > 0 ==> !is_white(text[0]) && !is_white(text.last()),
    ensures
        trimmed(before + text + behind) == text,
{
    let rest = text + behind;
    assert(before + text + behind =~= before + rest);
    lemma_white_start(before, rest);
    if text.len() > 0 {
        assert(rest[0] == text[0]);
        lemma_white_end(text, behind);
    } else {
        assert(rest =~= behind + Seq::empty());
        lemma_white_start(behind, Seq::empty());
        assert(text =~= Seq::empty());
    }
}

proof fn lemma_white_start(white: Seq<char>, rest: Seq<char>)
    requires
        forall|i: int| 0 <= i < white.len() ==> is_white(#[trigger] white[i]),
    ensures
        trimmed_start(white + rest) == trimmed_start(rest),
    decreases white.len(),
{
    if white.len() == 0 {
        assert(white + rest =~= rest);
    } else {
        let fewer = white.skip(1);
        assert forall|i: int| 0 <= i < fewer.len() implies is_white(#[trigger] fewer[i]) by {
            assert(fewer[i] == white[i + 1]);
        }
        lemma_white_start(fewer, rest);
        assert((white + rest)[0] == white[0]);
        assert((white + rest).skip(1) =~= fewer + rest);
    }
}

proof fn lemma_white_end(text: Seq<char>, white: Seq<char>)
    requires
        forall|i: int| 0 <= i < white.len() ==> is_white(#[trigger] white[i]),
    ensures
        trimmed_end(text + white) == trimmed_end(text),
    decreases white.len(),
{
    if white.len() == 0 {
        assert(text + white =~= text);
    } else {
        let fewer = white.drop_last();
        assert forall|i: int| 0 <= i < fewer.len() implies is_white(#[trigger] fewer[i]) by {
            assert(fewer[i] == white[i]);
        }
        lemma_white_end(text, fewer);
        assert((text + white).last() == white.last());
        assert((text + white).drop_last() =~= text + fewer);
    }
}

/// A pattern stands at an index where its characters are those of the text from there on.
pub proof fn law_occurrence(s: Seq<char>, p: Seq<char>, i: int)
    ensures
        occurs_at(s, p, i) <==> 0 <= i && i + p.len() <= s.len() && forall|k: int|
            0 <= k < p.len() ==> s[i + k] == #[trigger] p[k],
{
    if occurs_at(s, p, i) {
        assert forall|k: int| 0 <= k < p.len() implies s[i + k] == #[trigger] p[k] by {
            assert(s.subrange(i, i + p.len())[k] == p[k]);
        }
    }
}

/// A text begins with a prefix, ends with a suffix and holds an infix exactly where it is made of
/// that part and what stands beside it.
pub proof fn law_parts_of_a_text(s: Seq<char>, a: Seq<char>, p: Seq<char>, b: Seq<char>)
    ensures
        has_prefix(p + b, p),
        has_suffix(a + p, p),
        has_infix(a + p + b, p),
        has_prefix(s, p) ==> s == p + s.skip(p.len() as int),
        has_suffix(s, p) ==> s == s.take(s.len() - p.len()) + p,
        has_infix(s, p) ==> exists|i: int| occurs_at(s, p, i),
{
    let n = p.len() as int;
    assert((p + b).subrange(0, n) =~= p);
    assert((a + p).subrange(a.len() as int, a.len() + n) =~= p);
    assert((a + p + b).subrange(a.len() as int, a.len() + n) =~= p);
    assert(occurs_at(a + p + b, p, a.len() as int));
    if has_prefix(s, p) {
        assert(s =~= s.subrange(0, n) + s.skip(n));
    }
    if has_suffix(s, p) {
        assert(s =~= s.take(s.len() - n) + s.subrange(s.len() - n, s.len() as int));
    }
}

/// A search gives the first place: what stands before the pattern is found to be before it where
/// the pattern does not begin there, and nothing is found where it does not occur.
pub proof fn law_search_gives_the_first(a: Seq<char>, p: Seq<char>, b: Seq<char>)
    requires
        forall|i: int| 0 <= i < a.len() ==> !occurs_at(a + p + b, p, i),
    ensures
        found(a + p + b, p) == Some(a.len() as int),
        forall|s: Seq<char>| #[trigger] found(s, p) is None <==> !has_infix(s, p),
{
    let s = a + p + b;
    assert(s.subrange(a.len() as int, (a.len() + p.len()) as int) =~= p);
    assert(occurs_at(s, p, a.len() as int));
    lemma_find_from_skips(s, p, 0, a.len() as int);
    assert forall|s: Seq<char>| #[trigger] found(s, p) is None <==> !has_infix(s, p) by {
        lemma_found(s, p);
    }
}

/// A line ends at a line feed, with or without a carriage return before it; what follows are the
/// lines of the rest. What is left without a line feed is a line too, if it is not empty.
pub proof fn law_lines(line: Seq<char>, rest: Seq<char>)
    requires
        !line.contains('\n'),
    ensures
        line.len() > 0 && line.last() == '\r' || lines_of(line + seq!['\n'] + rest) == seq![line]
            + lines_of(rest),
        lines_of(line + seq!['\r', '\n'] + rest) == seq![line] + lines_of(rest),
        lines_of(line) == if line.len() > 0 {
            seq![line]
        } else {
            Seq::empty()
        },
{
    let n = line.len() as int;
    assert forall|i: int| 0 <= i < n implies line[i] != '\n' by {
        assert(line.contains(line[i]));
    }
    let plain = line + seq!['\n'] + rest;
    assert(plain[n] == '\n');
    assert(forall|i: int| 0 <= i < n ==> plain[i] == line[i]);
    lemma_until_char_is(plain, '\n', n);
    assert(plain.take(n) =~= line);
    assert(plain.skip(n + 1) =~= rest);
    let closed = line + seq!['\r', '\n'] + rest;
    assert(closed[n] == '\r' && closed[n + 1] == '\n');
    assert(forall|i: int| 0 <= i < n ==> closed[i] == line[i]);
    lemma_until_char_is(closed, '\n', n + 1);
    assert(closed.take(n + 1) =~= line.push('\r'));
    assert(line.push('\r').drop_last() =~= line);
    assert(closed.skip(n + 2) =~= rest);
    lemma_until_char_is(line, '\n', n);
}

/// A number is written in the digits from 0 to 9, the most significant one first.
pub proof fn law_decimal_notation(n: nat)
    ensures
        n < 10 ==> decimal_of(n).len() == 1 && decimal_of(n)[0] as u32 == 48 + n,
        n >= 10 ==> decimal_of(n) == decimal_of(n / 10) + decimal_of(n % 10),
{
    if n < 10 {
        lemma_digit(n);
    } else {
        assert(decimal_of(n) =~= decimal_of(n / 10) + decimal_of(n % 10));
    }
}

/// A text is read as a number digit by digit: every digit that follows makes ten times as much of
/// what precedes it and adds itself, up to the greatest number allowed.
pub proof fn law_number_notation(s: Seq<char>, max: nat, d: char)
    requires
        '0' <= d <= '9',
    ensures
        number_of(seq![d], max) == if d as u32 - 48 <= max {
            Some((d as u32 - 48) as nat)
        } else {
            None
        },
        number_of(s, max) matches Some(n) ==> number_of(s.push(d), max) == if n * 10 + (d as u32
            - 48) <= max {
            Some((n * 10 + (d as u32 - 48)) as nat)
        } else {
            None
        },
        number_of(s, max) matches Some(n) ==> n <= max && s.len() > 0 && forall|i: int|
            0 <= i < s.len() ==> '0' <= #[trigger] s[i] <= '9' || (i == 0 && s[i] == '+' && s.len()
                > 1),
        forall|less: nat|
            (number_of(s, max) matches Some(n) && n > less) ==> #[trigger] number_of(s, less)
                is None,
{
    let single = seq![d];
    assert(single.drop_last() =~= Seq::empty());
    assert(digits_value(single.drop_last()) == Some(0nat));
    assert(single.last() == d);
    let signed = s.len() > 0 && s[0] == '+';
    let digits = if signed {
        s.skip(1)
    } else {
        s
    };
    if let Some(n) = number_of(s, max) {
        let longer = s.push(d);
        assert(longer[0] == s[0]);
        if signed {
            assert(longer.skip(1) =~= digits.push(d));
        }
        assert(digits.push(d).drop_last() =~= digits);
        assert(digits.push(d).last() == d);
        lemma_all_digits(digits);
        assert forall|i: int| 0 <= i < s.len() implies '0' <= #[trigger] s[i] <= '9' || (i == 0
            && s[i] == '+' && s.len() > 1) by {
            if signed {
                if i > 0 {
                    assert(digits[i - 1] == s[i]);
                }
            } else {
                assert(digits[i] == s[i]);
            }
        }
    }
}

proof fn lemma_all_digits(s: Seq<char>)
    requires
        digits_value(s) is Some,
    ensures
        forall|i: int| 0 <= i < s.len() ==> '0' <= #[trigger] s[i] <= '9',
    decreases s.len(),
{
    if s.len() > 0 {
        let front = s.drop_last();
        lemma_all_digits(front);
        assert forall|i: int| 0 <= i < s.len() implies '0' <= #[trigger] s[i] <= '9' by {
            if i < front.len() {
                assert(front[i] == s[i]);
            }
        }
    }
}

/// An optional text says what it holds, and a list of texts what each of them holds, in order.
pub proof fn law_texts_say(s: String, list: Seq<&str>, i: int)
    requires
        0 <= i < list.len(),
    ensures
        opt_text(Some(s)) == Some(s@),
        opt_text(None) is None,
        views(list).len() == list.len(),
        views(list)[i] == list[i]@,
{
}

} // verus!
