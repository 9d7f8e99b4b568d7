//! Character-level helpers on strings, with their meaning stated over `Seq<char>`.

use vstd::prelude::*;
use vstd::string::*;

verus! {

/// `p` is the beginning of `s`.
pub open spec fn has_prefix(s: Seq<char>, p: Seq<char>) -> bool {
    p.len() <= s.len() && s.subrange(0, p.len() as int) == p
}

/// `p` is the end of `s`.
pub open spec fn has_suffix(s: Seq<char>, p: Seq<char>) -> bool {
    p.len() <= s.len() && s.subrange(s.len() - p.len(), s.len() as int) == p
}

/// `p` occurs in `s` starting at position `at`.
pub open spec fn occurs_at(s: Seq<char>, p: Seq<char>, at: int) -> bool {
    0 <= at && at + p.len() <= s.len() && s.subrange(at, at + p.len()) == p
}

/// `p` occurs somewhere in `s`.
pub open spec fn has_infix(s: Seq<char>, p: Seq<char>) -> bool {
    exists|at: int| occurs_at(s, p, at)
}

/// What is left of `s` once the prefix `p` is taken off; `None` where `p` is no prefix.
pub open spec fn without_prefix(s: Seq<char>, p: Seq<char>) -> Option<Seq<char>> {
    if has_prefix(s, p) {
        Some(s.subrange(p.len() as int, s.len() as int))
    } else {
        None
    }
}

/// What `char::is_whitespace` gives for `c`: whether `c` is white space as
/// Unicode defines it (White_Space).
pub uninterp spec fn white_space(c: char) -> bool;

/// std's `char::is_whitespace`; the contract names its answer.
pub assume_specification[ char::is_whitespace ](c: char) -> (w: bool)
    ensures
        w == white_space(c),
;

/// `s` without the whitespace at its beginning.
pub open spec fn strip_leading(s: Seq<char>) -> Seq<char>
    decreases s.len(),
{
    if s.len() > 0 && white_space(s[0]) {
        strip_leading(s.drop_first())
    } else {
        s
    }
}

/// `s` without the whitespace at its end.
pub open spec fn strip_trailing(s: Seq<char>) -> Seq<char>
    decreases s.len(),
{
    if s.len() > 0 && white_space(s.last()) {
        strip_trailing(s.drop_last())
    } else {
        s
    }
}

/// `s` without the whitespace at both ends.
pub open spec fn trimmed(s: Seq<char>) -> Seq<char> {
    strip_trailing(strip_leading(s))
}

/// The position of the first `c` in `s`, or the length of `s` where it holds none.
pub open spec fn first_index_of(s: Seq<char>, c: char) -> int
    decreases s.len(),
{
    if s.len() == 0 {
        0
    } else if s[0] == c {
        0
    } else {
        1 + first_index_of(s.drop_first(), c)
    }
}

/// The first `c` of `s` stands at `first_index_of`, and none stands before it.
pub proof fn lemma_first_index_of(s: Seq<char>, c: char)
    ensures
        0 <= first_index_of(s, c) <= s.len(),
        first_index_of(s, c) < s.len() ==> s[first_index_of(s, c)] == c,
        forall|k: int| 0 <= k < first_index_of(s, c) ==> s[k] != c,
    decreases s.len(),
{
    if s.len() > 0 && s[0] != c {
        lemma_first_index_of(s.drop_first(), c);
        assert forall|k: int| 0 <= k < first_index_of(s, c) implies s[k] != c by {
            if k > 0 {
                assert(s.drop_first()[k - 1] == s[k]);
            }
        }
    }
}

/// A position that holds `c` with no `c` before it is the first index of `c`.
pub proof fn lemma_first_index_unique(s: Seq<char>, c: char, at: int)
    requires
        0 <= at <= s.len(),
        at < s.len() ==> s[at] == c,
        forall|k: int| 0 <= k < at ==> s[k] != c,
    ensures
        first_index_of(s, c) == at,
{
    lemma_first_index_of(s, c);
    let f = first_index_of(s, c);
    if f < at {
        assert(s[f] != c);
    }
    if at < f {
        assert(s[at] != c);
    }
}

/// `line` without a carriage return at its end.
pub open spec fn without_cr(line: Seq<char>) -> Seq<char> {
    if line.len() > 0 && line.last() == '\r' {
        line.drop_last()
    } else {
        line
    }
}

/// The lines of `s`. A line ends with a line feed, or with a carriage return
/// and a line feed; neither belongs to the line. What follows the last line
/// feed is a line too, unless it is empty.
pub open spec fn lines_of(s: Seq<char>) -> Seq<Seq<char>>
    decreases s.len(),
{
    if s.len() == 0 {
        Seq::empty()
    } else {
        let at = first_index_of(s, '\n');
        if 0 <= at < s.len() {
            seq![without_cr(s.subrange(0, at))] + lines_of(s.subrange(at + 1, s.len() as int))
        } else {
            seq![s]
        }
    }
}

/// std's `String::push` appends one character.
pub assume_specification[ String::push ](s: &mut String, c: char)
    ensures
        final(s)@ == old(s)@.push(c),
;

/// std's `==` on string slices compares the characters.
pub assume_specification[ <str as PartialEq>::eq ](a: &str, b: &str) -> (same: bool)
    ensures
        same == (a@ == b@),
;

/// Whether two strings hold the same characters.
pub fn same_text(a: &str, b: &str) -> (same: bool)
    ensures
        same == (a@ == b@),
{
    *a == *b
}

/// The characters of `s`, in order.
pub fn chars_of(s: &str) -> (v: Vec<char>)
    ensures
        v@ == s@,
{
    let mut v: Vec<char> = Vec::new();
    for c in it: s.chars()
        invariant
            v@ == it.seq().take(it.index() as int),
    {
        v.push(c);
    }
    v
}

/// Whether `p` occurs in `s` at position `at`.
pub fn chars_occur_at(s: &Vec<char>, p: &Vec<char>, at: usize) -> (found: bool)
    ensures
        found == occurs_at(s@, p@, at as int),
{
    if at > s.len() || p.len() > s.len() - at {
        return false;
    }
    let mut i: usize = 0;
    while i < p.len()
        invariant
            at + p.len() <= s.len(),
            i <= p.len(),
            forall|k: int| 0 <= k < i ==> s@[at + k] == p@[k],
        decreases p.len() - i,
    {
        if s[at + i] != p[i] {
            assert(s@.subrange(at as int, at + p.len())[i as int] != p@[i as int]);
            return false;
        }
        i = i + 1;
    }
    assert(s@.subrange(at as int, at + p.len()) =~= p@);
    true
}

/// Whether `p` occurs anywhere in `s`.
pub fn chars_contain(s: &Vec<char>, p: &Vec<char>) -> (found: bool)
    ensures
        found == has_infix(s@, p@),
{
    if p.len() > s.len() {
        return false;
    }
    let last: usize = s.len() - p.len();
    let mut at: usize = 0;
    loop
        invariant
            last == s.len() - p.len(),
            at <= last,
            forall|k: int| 0 <= k < at ==> !occurs_at(s@, p@, k),
        ensures
            !has_infix(s@, p@),
        decreases last - at,
    {
        if chars_occur_at(s, p, at) {
            return true;
        }
        if at == last {
            break;
        }
        at = at + 1;
    }
    false
}

/// Whether `s` begins with `p`.
pub fn starts_with(s: &str, p: &str) -> (found: bool)
    ensures
        found == has_prefix(s@, p@),
{
    let sc = chars_of(s);
    let pc = chars_of(p);
    chars_occur_at(&sc, &pc, 0)
}

/// Whether `s` ends with `p`.
pub fn ends_with(s: &str, p: &str) -> (found: bool)
    ensures
        found == has_suffix(s@, p@),
{
    let sc = chars_of(s);
    let pc = chars_of(p);
    if pc.len() > sc.len() {
        return false;
    }
    chars_occur_at(&sc, &pc, sc.len() - pc.len())
}

/// Whether `p` occurs in `s`.
pub fn contains(s: &str, p: &str) -> (found: bool)
    ensures
        found == has_infix(s@, p@),
{
    let sc = chars_of(s);
    let pc = chars_of(p);
    chars_contain(&sc, &pc)
}

/// `s` without the prefix `p`, or `None` where `s` does not begin with `p`.
pub fn strip_prefix(s: &str, p: &str) -> (rest: Option<String>)
    ensures
        rest.is_some() == has_prefix(s@, p@),
        rest matches Some(r) ==> Some(r@) == without_prefix(s@, p@),
{
    if starts_with(s, p) {
        let n = s.unicode_len();
        let k = p.unicode_len();
        Some(s.substring_char(k, n).to_owned())
    } else {
        None
    }
}

/// `a` followed by `b`.
pub fn join_text(a: &str, b: &str) -> (joined: String)
    ensures
        joined@ == a@ + b@,
{
    let mut out = a.to_owned();
    out.append(b);
    out
}

/// The position of the first `c` in `s`, or the length of `s`.
pub fn find_char(s: &Vec<char>, c: char) -> (at: usize)
    ensures
        at == first_index_of(s@, c),
{
    let mut i: usize = 0;
    while i < s.len()
        invariant
            i <= s.len(),
            forall|k: int| 0 <= k < i ==> s@[k] != c,
        decreases s.len() - i,
    {
        if s[i] == c {
            proof {
                lemma_first_index_unique(s@, c, i as int);
            }
            return i;
        }
        i = i + 1;
    }
    proof {
        lemma_first_index_unique(s@, c, i as int);
    }
    i
}

/// The characters of `s` from `from` up to `to`, as a string.
pub(crate) fn slice_of(s: &str, from: usize, to: usize) -> (part: String)
    requires
        from <= to <= s@.len(),
    ensures
        part@ == s@.subrange(from as int, to as int),
{
    s.substring_char(from, to).to_owned()
}

/// The vector that holds `a` alone.
pub fn one(a: &str) -> (v: Vec<String>)
    ensures
        v.deep_view() == seq![a@],
{
    let mut v: Vec<String> = Vec::new();
    v.push(a.to_owned());
    assert(v.deep_view() =~= seq![a@]);
    v
}

/// The vector `v` with the string `a` appended.
pub fn with(v: Vec<String>, a: &str) -> (w: Vec<String>)
    ensures
        w.deep_view() == v.deep_view().push(a@),
{
    let mut w = v;
    let ghost before = w.deep_view();
    w.push(a.to_owned());
    assert(w.deep_view() =~= before.push(a@));
    w
}

/// The characters of `chars` from `from` up to `to`, as a string.
pub(crate) fn string_of(chars: &Vec<char>, from: usize, to: usize) -> (s: String)
    requires
        from <= to <= chars.len(),
    ensures
        s@ == chars@.subrange(from as int, to as int),
{
    let mut s = String::new();
    let mut i: usize = from;
    while i < to
        invariant
            from <= i <= to <= chars.len(),
            s@ == chars@.subrange(from as int, i as int),
        decreases to - i,
    {
        s.push(chars[i]);
        assert(s@ =~= chars@.subrange(from as int, i as int + 1));
        i = i + 1;
    }
    s
}

/// Past `a` whitespace characters and before anything else, `strip_leading`
/// leaves what follows.
proof fn lemma_strip_leading_at(s: Seq<char>, a: int)
    requires
        0 <= a <= s.len(),
        forall|k: int| 0 <= k < a ==> white_space(s[k]),
        a < s.len() ==> !white_space(s[a]),
    ensures
        strip_leading(s) == s.subrange(a, s.len() as int),
    decreases a,
{
    if a == 0 {
        assert(s.subrange(0, s.len() as int) =~= s);
    } else {
        assert(white_space(s[0]));
        let t = s.drop_first();
        assert forall|k: int| 0 <= k < a - 1 implies white_space(t[k]) by {
            assert(t[k] == s[k + 1]);
        }
        lemma_strip_leading_at(t, a - 1);
        assert(t.subrange(a - 1, t.len() as int) =~= s.subrange(a, s.len() as int));
    }
}

/// Before the whitespace from `b` on and after anything else, `strip_trailing`
/// leaves what comes before.
proof fn lemma_strip_trailing_at(s: Seq<char>, b: int)
    requires
        0 <= b <= s.len(),
        forall|k: int| b <= k < s.len() ==> white_space(s[k]),
        b > 0 ==> !white_space(s[b - 1]),
    ensures
        strip_trailing(s) == s.subrange(0, b),
    decreases s.len() - b,
{
    if b == s.len() {
        assert(s.subrange(0, b) =~= s);
    } else {
        assert(white_space(s.last()));
        let t = s.drop_last();
        lemma_strip_trailing_at(t, b);
        assert(t.subrange(0, b) =~= s.subrange(0, b));
    }
}

/// `s` without the whitespace at both ends.
pub fn trim(s: &str) -> (t: String)
    ensures
        t@ == trimmed(s@),
{
    let chars = chars_of(s);
    let mut from: usize = 0;
    while from < chars.len() && chars[from].is_whitespace()
        invariant
            from <= chars.len(),
            forall|k: int| 0 <= k < from ==> white_space(chars@[k]),
        decreases chars.len() - from,
    {
        from = from + 1;
    }
    let mut to: usize = chars.len();
    while to > from && chars[to - 1].is_whitespace()
        invariant
            from <= to <= chars.len(),
            forall|k: int| to <= k < chars.len() ==> white_space(chars@[k]),
        decreases to,
    {
        to = to - 1;
    }
    proof {
        lemma_strip_leading_at(chars@, from as int);
        let f = chars@.subrange(from as int, chars.len() as int);
        assert forall|k: int| to - from <= k < f.len() implies white_space(f[k]) by {
            assert(f[k] == chars@[from + k]);
        }
        if to > from {
            assert(f[to - from - 1] == chars@[to - 1]);
        }
        lemma_strip_trailing_at(f, to - from);
        assert(f.subrange(0, to - from) =~= chars@.subrange(from as int, to as int));
    }
    string_of(&chars, from, to)
}

/// The lines of `s`, without their line endings.
pub fn lines(s: &str) -> (all: Vec<String>)
    ensures
        all.deep_view() == lines_of(s@),
{
    let chars = chars_of(s);
    let n = chars.len();
    let mut all: Vec<String> = Vec::new();
    let mut start: usize = 0;
    let mut i: usize = 0;
    assert(all.deep_view() =~= Seq::empty());
    assert(chars@.subrange(0, n as int) =~= chars@);
    assert(Seq::<Seq<char>>::empty() + lines_of(chars@) =~= lines_of(chars@));
    while i < n
        invariant
            n == chars.len(),
            start <= i <= n,
            lines_of(chars@) == all.deep_view() + lines_of(chars@.subrange(start as int, n as int)),
            forall|k: int| start <= k < i ==> chars@[k] != '\n',
        decreases n - i,
    {
        if chars[i] == '\n' {
            let ghost before = all.deep_view();
            let ghost rest = chars@.subrange(start as int, n as int);
            let end = if i > start && chars[i - 1] == '\r' {
                i - 1
            } else {
                i
            };
            let line = string_of(&chars, start, end);
            proof {
                assert forall|k: int| 0 <= k < i - start implies rest[k] != '\n' by {
                    assert(rest[k] == chars@[start + k]);
                }
                assert(rest[i - start] == '\n');
                lemma_first_index_unique(rest, '\n', i - start);
                let head = rest.subrange(0, i - start);
                assert(head =~= chars@.subrange(start as int, i as int));
                if i > start {
                    assert(head.last() == chars@[i - 1]);
                }
                assert(without_cr(head) =~= chars@.subrange(start as int, end as int));
                assert(rest.subrange(i - start + 1, rest.len() as int) =~= chars@.subrange(
                    i as int + 1,
                    n as int,
                ));
            }
            all.push(line);
            assert(all.deep_view() =~= before.push(chars@.subrange(start as int, end as int)));
            assert(before + (seq![chars@.subrange(start as int, end as int)] + lines_of(
                chars@.subrange(i as int + 1, n as int),
            )) =~= all.deep_view() + lines_of(chars@.subrange(i as int + 1, n as int)));
            start = i + 1;
        }
        i = i + 1;
    }
    if start < n {
        let ghost before = all.deep_view();
        let ghost rest = chars@.subrange(start as int, n as int);
        proof {
            assert forall|k: int| 0 <= k < rest.len() implies rest[k] != '\n' by {
                assert(rest[k] == chars@[start + k]);
            }
            lemma_first_index_unique(rest, '\n', rest.len() as int);
        }
        all.push(string_of(&chars, start, n));
        assert(all.deep_view() =~= before.push(rest));
        assert(before + seq![rest] =~= before.push(rest));
    } else {
        assert(all.deep_view() + Seq::<Seq<char>>::empty() =~= all.deep_view());
    }
    all
}

/// The character that writes the digit `d`.
pub open spec fn digit_char(d: nat) -> char {
    if d == 0 {
        '0'
    } else if d == 1 {
        '1'
    } else if d == 2 {
        '2'
    } else if d == 3 {
        '3'
    } else if d == 4 {
        '4'
    } else if d == 5 {
        '5'
    } else if d == 6 {
        '6'
    } else if d == 7 {
        '7'
    } else if d == 8 {
        '8'
    } else {
        '9'
    }
}

/// The number `n` written in decimal digits, without leading zeros.
pub open spec fn digits_of(n: nat) -> Seq<char>
    decreases n,
{
    if n < 10 {
        seq![digit_char(n)]
    } else {
        digits_of(n / 10).push(digit_char(n % 10))
    }
}

/// The character that writes the digit `d`.
fn digit(d: usize) -> (c: char)
    requires
        d < 10,
    ensures
        c == digit_char(d as nat),
{
    if d == 0 {
        '0'
    } else if d == 1 {
        '1'
    } else if d == 2 {
        '2'
    } else if d == 3 {
        '3'
    } else if d == 4 {
        '4'
    } else if d == 5 {
        '5'
    } else if d == 6 {
        '6'
    } else if d == 7 {
        '7'
    } else if d == 8 {
        '8'
    } else {
        '9'
    }
}

/// The number `n` written in decimal digits.
pub fn decimal(n: usize) -> (text: String)
    ensures
        text@ == digits_of(n as nat),
    decreases n,
{
    if n < 10 {
        let mut text = String::new();
        text.push(digit(n));
        assert(text@ =~= seq![digit_char(n as nat)]);
        text
    } else {
        let mut text = decimal(n / 10);
        text.push(digit(n % 10));
        text
    }
}

} // verus!
