//! Character-level text primitives.
//!
//! Strings are handled as sequences of Unicode scalar values: a `&str` is
//! turned into a `Vec<char>` once, scanned by index, and turned back into a
//! `String` at the end. Every function here is specified over `Seq<char>`.

use vstd::prelude::*;

verus! {

/// `String::push` of the standard library, taken on trust: the string
/// afterwards is the string before with `c` behind it.
pub assume_specification[ String::push ](s: &mut String, c: char)
    ensures
        final(s)@ == old(s)@.push(c),
;

/// View of a list of strings.
pub open spec fn strings_view(v: Seq<String>) -> Seq<Seq<char>> {
    Seq::new(v.len(), |i: int| v[i]@)
}

/// `pat` occurs in `t` starting at index `i`.
pub open spec fn has_at(t: Seq<char>, i: int, pat: Seq<char>) -> bool {
    &&& 0 <= i
    &&& i + pat.len() <= t.len()
    &&& forall|k: int| 0 <= k < pat.len() ==> t[i + k] == #[trigger] pat[k]
}

/// `t` begins with `pat`.
pub open spec fn starts_with(t: Seq<char>, pat: Seq<char>) -> bool {
    has_at(t, 0, pat)
}

/// Index of the first occurrence of `pat` in `t` that starts at or after
/// `from`, if there is one.
pub open spec fn find_from(t: Seq<char>, from: int, pat: Seq<char>) -> Option<int>
    decreases t.len() - from,
{
    if from < 0 || from + pat.len() > t.len() {
        None
    } else if has_at(t, from, pat) {
        Some(from)
    } else {
        find_from(t, from + 1, pat)
    }
}

/// A character with the Unicode property `White_Space`.
pub open spec fn is_whitespace(c: char) -> bool {
    let n = c as u32;
    ||| 0x09 <= n <= 0x0D
    ||| n == 0x20
    ||| n == 0x85
    ||| n == 0xA0
    ||| n == 0x1680
    ||| 0x2000 <= n <= 0x200A
    ||| n == 0x2028
    ||| n == 0x2029
    ||| n == 0x202F
    ||| n == 0x205F
    ||| n == 0x3000
}

/// First index at or after `i` that holds no whitespace (`s.len()` if none).
pub open spec fn skip_whitespace(s: Seq<char>, i: int) -> int
    decreases s.len() - i,
{
    if 0 <= i < s.len() && is_whitespace(s[i]) {
        skip_whitespace(s, i + 1)
    } else {
        i
    }
}

/// End of the last non-whitespace character before `j`, not below `lo`.
pub open spec fn drop_whitespace(s: Seq<char>, lo: int, j: int) -> int
    decreases j,
{
    if 0 <= lo < j <= s.len() && is_whitespace(s[j - 1]) {
        drop_whitespace(s, lo, j - 1)
    } else {
        j
    }
}

/// `s` without its leading and trailing whitespace.
pub open spec fn trimmed(s: Seq<char>) -> Seq<char> {
    let a = skip_whitespace(s, 0);
    let b = drop_whitespace(s, a, s.len() as int);
    s.subrange(a, b)
}

/// The decimal digit `d` as a character.
pub open spec fn digit_char(d: nat) -> char {
    if d == 0 {
        '0'
    } else if d == 1 {
        '1'
    } else if d == 2 {
        '2'
    } else if d == 3 {
        '3'
    } else if d == 4 {
        '4'
    } else if d == 5 {
        '5'
    } else if d == 6 {
        '6'
    } else if d == 7 {
        '7'
    } else if d == 8 {
        '8'
    } else {
        '9'
    }
}

/// Decimal notation of `n`, without sign or leading zeros.
pub open spec fn decimal(n: nat) -> Seq<char>
    decreases n,
{
    if n < 10 {
        seq![digit_char(n)]
    } else {
        decimal(n / 10).push(digit_char(n % 10))
    }
}

/// The lower-case form of an ASCII letter; any other character unchanged.
pub open spec fn ascii_lower(c: char) -> char {
    if 'A' <= c <= 'Z' {
        ((c as u8) + 32) as char
    } else {
        c
    }
}

/// `s` with every ASCII letter in lower case.
pub open spec fn ascii_lowered(s: Seq<char>) -> Seq<char> {
    Seq::new(s.len(), |i: int| ascii_lower(s[i]))
}

/// `find_from` gives the least index at or after `from` where `pat` occurs.
pub proof fn lemma_find_from(t: Seq<char>, from: int, pat: Seq<char>)
    requires
        0 <= from,
    ensures
        match find_from(t, from, pat) {
            Some(i) => from <= i && has_at(t, i, pat) && forall|j: int|
                from <= j < i ==> !has_at(t, j, pat),
            None => forall|j: int| from <= j ==> !has_at(t, j, pat),
        },
    decreases t.len() - from,
{
    if from + pat.len() > t.len() {
    } else if has_at(t, from, pat) {
    } else {
        lemma_find_from(t, from + 1, pat);
    }
}

/// A search that starts later finds the same occurrence, as long as it does
/// not start behind it.
pub proof fn lemma_find_from_later(t: Seq<char>, a: int, b: int, pat: Seq<char>)
    requires
        0 <= a <= b,
        find_from(t, a, pat) matches Some(m) ==> b <= m,
    ensures
        find_from(t, b, pat) == find_from(t, a, pat),
{
    lemma_find_from(t, a, pat);
    lemma_find_from(t, b, pat);
}

/// One of the characters `0` to `9`.
pub open spec fn is_digit(c: char) -> bool {
    '0' <= c <= '9'
}

/// Every character of `s` is a decimal digit.
pub open spec fn all_digits(s: Seq<char>) -> bool {
    forall|k: int| 0 <= k < s.len() ==> is_digit(#[trigger] s[k])
}

/// Decimal notation is not empty and holds digits only.
pub proof fn lemma_decimal_digits(n: nat)
    ensures
        decimal(n).len() >= 1,
        all_digits(decimal(n)),
    decreases n,
{
    if n >= 10 {
        lemma_decimal_digits(n / 10);
    }
}

/// The code of a digit character is that of `0` plus the digit.
proof fn lemma_digit_code(d: nat)
    requires
        d < 10,
    ensures
        digit_char(d) as int == 48 + d,
{
}

/// Two numbers with the same decimal notation are the same number.
pub proof fn lemma_decimal_injective(a: nat, b: nat)
    requires
        decimal(a) == decimal(b),
    ensures
        a == b,
    decreases a,
{
    lemma_decimal_digits(a / 10);
    lemma_decimal_digits(b / 10);
    let x = decimal(a / 10);
    let y = decimal(b / 10);
    if a < 10 {
        assert(decimal(a) == seq![digit_char(a)]);
        assert(decimal(a).len() == 1);
        if b < 10 {
            assert(decimal(b) == seq![digit_char(b)]);
            assert(decimal(a)[0] == digit_char(a));
            assert(decimal(b)[0] == digit_char(b));
            lemma_digit_code(a);
            lemma_digit_code(b);
        } else {
            assert(decimal(b) == y.push(digit_char(b % 10)));
            assert(decimal(b).len() == y.len() + 1);
        }
    } else {
        assert(decimal(a) == x.push(digit_char(a % 10)));
        assert(decimal(a).len() == x.len() + 1);
        if b < 10 {
            assert(decimal(b) == seq![digit_char(b)]);
            assert(decimal(b).len() == 1);
        } else {
            assert(decimal(b) == y.push(digit_char(b % 10)));
            assert(x.push(digit_char(a % 10)).drop_last() =~= x);
            assert(y.push(digit_char(b % 10)).drop_last() =~= y);
            assert(x == y);
            assert(x.push(digit_char(a % 10)).last() == digit_char(a % 10));
            assert(y.push(digit_char(b % 10)).last() == digit_char(b % 10));
            assert(digit_char(a % 10) == digit_char(b % 10));
            lemma_digit_code(a % 10);
            lemma_digit_code(b % 10);
            lemma_decimal_injective(a / 10, b / 10);
            assert(a == (a / 10) * 10 + a % 10);
            assert(b == (b / 10) * 10 + b % 10);
        }
    }
}

/// A run of digits that is followed by something else is read off a text
/// in one way only: where two texts are equal, each a run of digits
/// followed by a remainder that starts with no digit, the runs are equal.
pub proof fn lemma_digit_run_unique(p: Seq<char>, r: Seq<char>, q: Seq<char>, t: Seq<char>)
    requires
        all_digits(p),
        all_digits(q),
        r.len() > 0 && !is_digit(r[0]),
        t.len() > 0 && !is_digit(t[0]),
        p + r == q + t,
    ensures
        p == q,
        r == t,
{
    let x = p + r;
    let y = q + t;
    if p.len() < q.len() {
        assert(x[p.len() as int] == r[0]);
        assert(y[p.len() as int] == q[p.len() as int]);
    } else if q.len() < p.len() {
        assert(y[q.len() as int] == t[0]);
        assert(x[q.len() as int] == p[q.len() as int]);
    }
    assert(p =~= x.subrange(0, p.len() as int));
    assert(q =~= y.subrange(0, q.len() as int));
    assert(r =~= x.subrange(p.len() as int, x.len() as int));
    assert(t =~= y.subrange(q.len() as int, y.len() as int));
}

/// A text that neither starts nor ends with whitespace is its own trimmed
/// form.
pub proof fn lemma_trimmed_unchanged(s: Seq<char>)
    requires
        s.len() > 0 ==> !is_whitespace(s[0]) && !is_whitespace(s.last()),
    ensures
        trimmed(s) == s,
{
    assert(s.subrange(0, s.len() as int) =~= s);
}

/// The characters of `s`, in order.
pub fn chars_of(s: &str) -> (v: Vec<char>)
    ensures
        v@ == s@,
{
    let mut v: Vec<char> = Vec::new();
    for c in it: s.chars()
        invariant
            v@ == it.seq().take(it.index() as int),
            it.seq() == s@,
    {
        v.push(c);
    }
    v
}

/// The string made of the characters of `v`, in order.
pub fn string_of(v: &Vec<char>) -> (s: String)
    ensures
        s@ == v@,
{
    let mut s = String::new();
    let mut i: usize = 0;
    while i < v.len()
        invariant
            i <= v.len(),
            s@ == v@.take(i as int),
        decreases v.len() - i,
    {
        s.push(v[i]);
        i = i + 1;
    }
    s
}

/// Appends `src[from..to]` to `out`.
pub fn push_range(out: &mut Vec<char>, src: &Vec<char>, from: usize, to: usize)
    requires
        from <= to <= src.len(),
    ensures
        final(out)@ == old(out)@ + src@.subrange(from as int, to as int),
{
    let mut i: usize = from;
    while i < to
        invariant
            from <= i <= to <= src.len(),
            out@ == old(out)@ + src@.subrange(from as int, i as int),
        decreases to - i,
    {
        out.push(src[i]);
        i = i + 1;
    }
}

/// Appends all of `src` to `out`.
pub fn push_all(out: &mut Vec<char>, src: &Vec<char>)
    ensures
        final(out)@ == old(out)@ + src@,
{
    push_range(out, src, 0, src.len());
    assert(src@.subrange(0, src.len() as int) == src@);
}

/// Appends the characters of `s` to `out`.
pub fn push_str(out: &mut Vec<char>, s: &str)
    ensures
        final(out)@ == old(out)@ + s@,
{
    let v = chars_of(s);
    push_all(out, &v);
}

/// Whether `pat` occurs in `t` at index `i`.
pub fn matches_at(t: &Vec<char>, i: usize, pat: &Vec<char>) -> (b: bool)
    ensures
        b == has_at(t@, i as int, pat@),
{
    if i > t.len() || pat.len() > t.len() - i {
        return false;
    }
    let mut k: usize = 0;
    while k < pat.len()
        invariant
            k <= pat.len(),
            i + pat.len() <= t.len(),
            forall|j: int| 0 <= j < k ==> t@[i + j] == #[trigger] pat@[j],
        decreases pat.len() - k,
    {
        if t[i + k] != pat[k] {
            return false;
        }
        k = k + 1;
    }
    true
}

/// Index of the first occurrence of `pat` in `t` at or after `from`.
pub fn find(t: &Vec<char>, from: usize, pat: &Vec<char>) -> (r: Option<usize>)
    ensures
        match r {
            Some(i) => find_from(t@, from as int, pat@) == Some(i as int),
            None => find_from(t@, from as int, pat@) is None,
        },
{
    let mut i: usize = from;
    while i <= t.len() && pat.len() <= t.len() - i
        invariant
            from <= i,
            find_from(t@, from as int, pat@) == find_from(t@, i as int, pat@),
        decreases t.len() - i,
    {
        if matches_at(t, i, pat) {
            return Some(i);
        }
        i = i + 1;
    }
    None
}

/// A search for one pattern in one text that remembers what it found last,
/// so that a run of searches from rising positions reads the text once.
pub struct Finder {
    pattern: Vec<char>,
    from: usize,
    at: Option<usize>,
}

impl Finder {
    /// The pattern that is searched for.
    pub closed spec fn pattern(&self) -> Seq<char> {
        self.pattern@
    }

    /// What is remembered is true of the text `t`.
    pub closed spec fn remembers(&self, t: Seq<char>) -> bool {
        match self.at {
            Some(i) => find_from(t, self.from as int, self.pattern@) == Some(i as int),
            None => find_from(t, self.from as int, self.pattern@) is None,
        }
    }

    /// A search for `pattern` in `t` that has looked nowhere yet.
    pub fn new(t: &Vec<char>, pattern: Vec<char>) -> (r: Finder)
        ensures
            r.pattern() == pattern@,
            r.remembers(t@),
    {
        let at = find(t, 0, &pattern);
        Finder { pattern, from: 0, at }
    }

    /// Index of the first occurrence of the pattern in `t` at or after
    /// `start`.
    pub fn first_from(&mut self, t: &Vec<char>, start: usize) -> (r: Option<usize>)
        requires
            old(self).remembers(t@),
        ensures
            final(self).remembers(t@),
            final(self).pattern() == old(self).pattern(),
            match r {
                Some(i) => find_from(t@, start as int, old(self).pattern()) == Some(i as int),
                None => find_from(t@, start as int, old(self).pattern()) is None,
            },
    {
        let known = self.from <= start && match self.at {
            Some(i) => start <= i,
            None => true,
        };
        if known {
            proof {
                lemma_find_from_later(t@, self.from as int, start as int, self.pattern@);
            }
        } else {
            self.at = find(t, start, &self.pattern);
            self.from = start;
        }
        self.at
    }
}

/// Whether `c` has the Unicode property `White_Space`.
pub fn char_is_whitespace(c: char) -> (b: bool)
    ensures
        b == is_whitespace(c),
{
    let n: u32 = c as u32;
    (0x09 <= n && n <= 0x0D) || n == 0x20 || n == 0x85 || n == 0xA0 || n == 0x1680 || (0x2000 <= n
        && n <= 0x200A) || n == 0x2028 || n == 0x2029 || n == 0x202F || n == 0x205F || n == 0x3000
}

/// `s` without its leading and trailing whitespace.
pub fn trim(s: &Vec<char>) -> (r: Vec<char>)
    ensures
        r@ == trimmed(s@),
{
    let mut a: usize = 0;
    while a < s.len() && char_is_whitespace(s[a])
        invariant
            a <= s.len(),
            skip_whitespace(s@, 0) == skip_whitespace(s@, a as int),
        decreases s.len() - a,
    {
        a = a + 1;
    }
    let mut b: usize = s.len();
    while a < b && char_is_whitespace(s[b - 1])
        invariant
            a <= b <= s.len(),
            drop_whitespace(s@, a as int, s.len() as int) == drop_whitespace(
                s@,
                a as int,
                b as int,
            ),
        decreases b,
    {
        b = b - 1;
    }
    let mut r: Vec<char> = Vec::new();
    push_range(&mut r, s, a, b);
    r
}

/// The decimal digit `d` as a character.
pub fn digit(d: u64) -> (c: char)
    requires
        d < 10,
    ensures
        c == digit_char(d as nat),
{
    if d == 0 {
        '0'
    } else if d == 1 {
        '1'
    } else if d == 2 {
        '2'
    } else if d == 3 {
        '3'
    } else if d == 4 {
        '4'
    } else if d == 5 {
        '5'
    } else if d == 6 {
        '6'
    } else if d == 7 {
        '7'
    } else if d == 8 {
        '8'
    } else {
        '9'
    }
}

/// Appends the decimal notation of `n` to `out`.
pub fn push_decimal(out: &mut Vec<char>, n: u64)
    ensures
        final(out)@ == old(out)@ + decimal(n as nat),
    decreases n,
{
    if n >= 10 {
        push_decimal(out, n / 10);
    }
    out.push(digit(n % 10));
}

/// The lower-case form of an ASCII letter; any other character unchanged.
pub fn lower(c: char) -> (r: char)
    ensures
        r == ascii_lower(c),
{
    if 'A' <= c && c <= 'Z' {
        ((c as u8) + 32) as char
    } else {
        c
    }
}

/// Whether `a` and `b` hold the same characters.
pub fn same_chars(a: &Vec<char>, b: &Vec<char>) -> (r: bool)
    ensures
        r == (a@ == b@),
{
    if a.len() != b.len() {
        return false;
    }
    let r = matches_at(a, 0, b);
    proof {
        if r {
            assert(a@ =~= b@);
        }
    }
    r
}

/// Whether `s` holds exactly the characters of `lit`.
pub fn equals_str(s: &Vec<char>, lit: &str) -> (r: bool)
    ensures
        r == (s@ == lit@),
{
    let l = chars_of(lit);
    same_chars(s, &l)
}

/// Whether two string slices hold the same characters.
pub fn str_eq(a: &str, b: &str) -> (r: bool)
    ensures
        r == (a@ == b@),
{
    let x = chars_of(a);
    let y = chars_of(b);
    same_chars(&x, &y)
}

/// Whether `s` begins with the characters of `lit`.
pub fn begins_with(s: &Vec<char>, lit: &str) -> (r: bool)
    ensures
        r == starts_with(s@, lit@),
{
    let l = chars_of(lit);
    matches_at(s, 0, &l)
}

} // verus!
