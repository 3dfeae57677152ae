//! Character-level building blocks: classes of characters, searching,
//! stripping, the collapsing of two-character operators, substring tests and
//! decimal numerals. Every function is specified over `Seq<char>`.
use vstd::prelude::*;
use vstd::std_specs::iter::IteratorSpec;

verus! {

/// A set of characters that the scanners below look for.
#[derive(Clone, Copy, Debug)]
pub enum CharClass {
    /// Unicode white space.
    Space,
    /// One of the characters that start a version operator: `= > < ~ !`.
    Delimiter,
    /// Exactly the given character.
    Exactly(char),
}

/// Unicode's `White_Space` property.
pub open spec fn is_space(c: char) -> bool {
    let n = c as u32;
    (0x09 <= n && n <= 0x0D) || n == 0x20 || n == 0x85 || n == 0xA0 || n == 0x1680 || (0x2000 <= n
        && n <= 0x200A) || n == 0x2028 || n == 0x2029 || n == 0x202F || n == 0x205F || n == 0x3000
}

/// The characters at which a package name ends.
pub open spec fn is_delimiter(c: char) -> bool {
    c == '=' || c == '>' || c == '<' || c == '~' || c == '!'
}

impl CharClass {
    /// Whether `c` belongs to the class.
    pub open spec fn holds(self, c: char) -> bool {
        match self {
            CharClass::Space => is_space(c),
            CharClass::Delimiter => is_delimiter(c),
            CharClass::Exactly(x) => c == x,
        }
    }

    /// Tests whether `c` belongs to the class.
    pub fn test(&self, c: char) -> (r: bool)
        ensures
            r == self.holds(c),
    {
        match self {
            CharClass::Space => {
                let n: u32 = c as u32;
                (0x09 <= n && n <= 0x0D) || n == 0x20 || n == 0x85 || n == 0xA0 || n == 0x1680 || (
                0x2000 <= n && n <= 0x200A) || n == 0x2028 || n == 0x2029 || n == 0x202F || n
                    == 0x205F || n == 0x3000
            },
            CharClass::Delimiter => c == '=' || c == '>' || c == '<' || c == '~' || c == '!',
            CharClass::Exactly(x) => c == *x,
        }
    }
}

/// The first index at or after `from` whose character is in `class`, or the
/// length of `s` when there is none.
pub open spec fn find(s: Seq<char>, from: int, class: CharClass) -> int
    decreases s.len() - from,
{
    if 0 <= from < s.len() && !class.holds(s[from]) {
        find(s, from + 1, class)
    } else {
        from
    }
}

/// The first index at or after `from` whose character is not in `class`, or
/// the length of `s` when there is none.
pub open spec fn skip(s: Seq<char>, from: int, class: CharClass) -> int
    decreases s.len() - from,
{
    if 0 <= from < s.len() && class.holds(s[from]) {
        skip(s, from + 1, class)
    } else {
        from
    }
}

/// The end of `s[lo..to]` once its trailing characters in `class` are left out.
pub open spec fn skip_back(s: Seq<char>, lo: int, to: int, class: CharClass) -> int
    decreases to,
{
    if lo < to <= s.len() && 0 < to && class.holds(s[to - 1]) {
        skip_back(s, lo, to - 1, class)
    } else {
        to
    }
}

/// `s` without its leading and trailing characters in `class`.
pub open spec fn strip(s: Seq<char>, class: CharClass) -> Seq<char> {
    let lo = skip(s, 0, class);
    s.subrange(lo, skip_back(s, lo, s.len() as int, class))
}

/// `s` without leading and trailing white space.
pub open spec fn trim(s: Seq<char>) -> Seq<char> {
    strip(s, CharClass::Space)
}

/// `find` stays inside the sequence, and no character before it is in the class.
pub proof fn lemma_find_bounds(s: Seq<char>, from: int, class: CharClass)
    requires
        0 <= from <= s.len(),
    ensures
        from <= find(s, from, class) <= s.len(),
        find(s, from, class) < s.len() ==> class.holds(s[find(s, from, class)]),
        forall|i: int| from <= i < find(s, from, class) ==> !class.holds(#[trigger] s[i]),
    decreases s.len() - from,
{
    if from < s.len() && !class.holds(s[from]) {
        lemma_find_bounds(s, from + 1, class);
    }
}

/// The characters of `s`, in order.
pub fn chars_of(s: &str) -> (out: Vec<char>)
    ensures
        out@ == s@,
{
    let mut out: Vec<char> = Vec::new();
    for c in it: s.chars()
        invariant
            out@ == it.seq().take(it.index()),
            it.seq() == s@,
    {
        out.push(c);
    }
    out
}

/// `String::push`: the character is appended to the string.
#[verifier::external_body]
pub(crate) fn push_char(s: &mut String, c: char)
    ensures
        final(s)@ == old(s)@.push(c),
{
    s.push(c)
}

/// Appends `v[lo..hi]` to `out`.
pub fn push_range(out: &mut String, v: &Vec<char>, lo: usize, hi: usize)
    requires
        lo <= hi <= v@.len(),
    ensures
        final(out)@ == old(out)@ + v@.subrange(lo as int, hi as int),
{
    let mut i: usize = lo;
    while i < hi
        invariant
            lo <= i <= hi <= v@.len(),
            out@ == old(out)@ + v@.subrange(lo as int, i as int),
        decreases hi - i,
    {
        push_char(out, v[i]);
        i = i + 1;
        assert(out@ =~= old(out)@ + v@.subrange(lo as int, i as int));
    }
    assert(out@ =~= old(out)@ + v@.subrange(lo as int, hi as int));
}

/// The string made of the characters of `v`.
pub fn string_of(v: &Vec<char>) -> (out: String)
    ensures
        out@ == v@,
{
    let mut out = String::new();
    push_range(&mut out, v, 0, v.len());
    assert(out@ =~= v@);
    out
}

/// A copy of `v[lo..hi]`.
pub fn slice_of(v: &Vec<char>, lo: usize, hi: usize) -> (out: Vec<char>)
    requires
        lo <= hi <= v@.len(),
    ensures
        out@ == v@.subrange(lo as int, hi as int),
{
    let mut out: Vec<char> = Vec::new();
    let mut i: usize = lo;
    while i < hi
        invariant
            lo <= i <= hi <= v@.len(),
            out@ == v@.subrange(lo as int, i as int),
        decreases hi - i,
    {
        out.push(v[i]);
        i = i + 1;
        assert(out@ =~= v@.subrange(lo as int, i as int));
    }
    out
}

/// Finds the first character in `class` at or after `from`.
pub fn find_in(v: &Vec<char>, from: usize, class: CharClass) -> (at: usize)
    requires
        from <= v@.len(),
    ensures
        at == find(v@, from as int, class),
        from <= at <= v@.len(),
{
    let mut i: usize = from;
    while i < v.len() && !class.test(v[i])
        invariant
            from <= i <= v@.len(),
            find(v@, from as int, class) == find(v@, i as int, class),
        decreases v@.len() - i,
    {
        i = i + 1;
    }
    i
}

/// Strips the characters in `class` from both ends of `v`.
pub fn strip_of(v: &Vec<char>, class: CharClass) -> (out: Vec<char>)
    ensures
        out@ == strip(v@, class),
{
    let n: usize = v.len();
    let mut lo: usize = 0;
    while lo < n && class.test(v[lo])
        invariant
            n == v@.len(),
            lo <= n,
            skip(v@, 0, class) == skip(v@, lo as int, class),
        decreases n - lo,
    {
        lo = lo + 1;
    }
    let mut hi: usize = n;
    while lo < hi && class.test(v[hi - 1])
        invariant
            n == v@.len(),
            lo <= hi <= n,
            skip_back(v@, lo as int, n as int, class) == skip_back(v@, lo as int, hi as int, class),
        decreases hi,
    {
        hi = hi - 1;
    }
    slice_of(v, lo, hi)
}

/// `s` from `from` on, with every pair of `lead` and `=` replaced by `lead`
/// alone, pairs being taken from left to right without overlap.
pub open spec fn collapse_from(s: Seq<char>, from: int, lead: char) -> Seq<char>
    decreases s.len() - from,
{
    if from < 0 || from >= s.len() {
        Seq::empty()
    } else if from + 1 < s.len() && s[from] == lead && s[from + 1] == '=' {
        seq![lead] + collapse_from(s, from + 2, lead)
    } else {
        seq![s[from]] + collapse_from(s, from + 1, lead)
    }
}

/// `s` with every pair of `lead` and `=` replaced by `lead` alone.
pub open spec fn collapse(s: Seq<char>, lead: char) -> Seq<char> {
    collapse_from(s, 0, lead)
}

/// Replaces every pair of `lead` and `=` in `v` by `lead` alone.
pub fn collapse_of(v: &Vec<char>, lead: char) -> (out: Vec<char>)
    ensures
        out@ == collapse(v@, lead),
{
    let n: usize = v.len();
    let mut out: Vec<char> = Vec::new();
    let mut i: usize = 0;
    while i < n
        invariant
            n == v@.len(),
            i <= n,
            out@ + collapse_from(v@, i as int, lead) == collapse(v@, lead),
        decreases n - i,
    {
        let ghost before = out@;
        if i + 1 < n && v[i] == lead && v[i + 1] == '=' {
            out.push(lead);
            assert(out@ + collapse_from(v@, i + 2, lead) =~= before + collapse_from(
                v@,
                i as int,
                lead,
            ));
            i = i + 2;
        } else {
            out.push(v[i]);
            assert(out@ + collapse_from(v@, i + 1, lead) =~= before + collapse_from(
                v@,
                i as int,
                lead,
            ));
            i = i + 1;
        }
    }
    assert(out@ =~= out@ + collapse_from(v@, i as int, lead));
    out
}

/// Whether `needle` occurs in `hay` at index `at`.
pub open spec fn occurs_at(hay: Seq<char>, needle: Seq<char>, at: int) -> bool {
    0 <= at && at + needle.len() <= hay.len() && hay.subrange(at, at + needle.len()) == needle
}

/// Whether `needle` occurs somewhere in `hay`.
pub open spec fn contains(hay: Seq<char>, needle: Seq<char>) -> bool {
    exists|at: int| occurs_at(hay, needle, at)
}

/// Tests whether `needle` occurs in `hay` at index `at`.
pub fn occurs_at_in(hay: &Vec<char>, needle: &Vec<char>, at: usize) -> (r: bool)
    requires
        at + needle@.len() <= hay@.len(),
    ensures
        r == occurs_at(hay@, needle@, at as int),
{
    let n: usize = hay.len();
    let m: usize = needle.len();
    let mut j: usize = 0;
    while j < m
        invariant
            n == hay@.len(),
            m == needle@.len(),
            j <= m,
            at + m <= n,
            forall|k: int| 0 <= k < j ==> hay@[at + k] == needle@[k],
        decreases m - j,
    {
        if hay[at + j] != needle[j] {
            proof {
                let piece = hay@.subrange(at as int, at + m);
                assert(piece[j as int] == hay@[at + j]);
            }
            return false;
        }
        j = j + 1;
    }
    assert(hay@.subrange(at as int, at + m) =~= needle@);
    true
}

/// Tests whether `needle` occurs somewhere in `hay`.
pub fn contains_in(hay: &Vec<char>, needle: &Vec<char>) -> (r: bool)
    ensures
        r == contains(hay@, needle@),
{
    let n: usize = hay.len();
    let m: usize = needle.len();
    if m > n {
        return false;
    }
    let last: usize = n - m;
    let mut i: usize = 0;
    while i < last
        invariant
            n == hay@.len(),
            m == needle@.len(),
            last == n - m,
            i <= last,
            forall|k: int| 0 <= k < i ==> !occurs_at(hay@, needle@, k),
        decreases last - i,
    {
        if occurs_at_in(hay, needle, i) {
            return true;
        }
        i = i + 1;
    }
    occurs_at_in(hay, needle, last)
}

/// Tests whether `name` reads as `literal`.
pub fn is_named(name: &String, literal: &str) -> (r: bool)
    ensures
        r == (name@ == literal@),
{
    *name == literal.to_owned()
}

/// The character that stands for a digit below ten.
pub open spec fn digit(d: nat) -> char {
    if d == 0 {
        '0'
    } else if d == 1 {
        '1'
    } else if d == 2 {
        '2'
    } else if d == 3 {
        '3'
    } else if d == 4 {
        '4'
    } else if d == 5 {
        '5'
    } else if d == 6 {
        '6'
    } else if d == 7 {
        '7'
    } else if d == 8 {
        '8'
    } else {
        '9'
    }
}

/// The decimal numeral of `n`, without leading zeros.
pub open spec fn decimal(n: nat) -> Seq<char>
    decreases n,
{
    if n < 10 {
        seq![digit(n)]
    } else {
        decimal(n / 10).push(digit(n % 10))
    }
}

/// The character that stands for the digit `d`.
pub fn digit_char(d: usize) -> (c: char)
    requires
        d < 10,
    ensures
        c == digit(d as nat),
{
    if d == 0 {
        '0'
    } else if d == 1 {
        '1'
    } else if d == 2 {
        '2'
    } else if d == 3 {
        '3'
    } else if d == 4 {
        '4'
    } else if d == 5 {
        '5'
    } else if d == 6 {
        '6'
    } else if d == 7 {
        '7'
    } else if d == 8 {
        '8'
    } else {
        '9'
    }
}

/// Appends the decimal numeral of `n` to `out`.
pub fn push_decimal(out: &mut String, n: usize)
    ensures
        final(out)@ == old(out)@ + decimal(n as nat),
    decreases n,
{
    if n < 10 {
        push_char(out, digit_char(n));
        assert(out@ =~= old(out)@ + decimal(n as nat));
    } else {
        push_decimal(out, n / 10);
        push_char(out, digit_char(n % 10));
        assert(out@ =~= old(out)@ + decimal(n as nat));
    }
}

/// `s` with a backslash put before every double quote.
pub open spec fn escape_quotes_upto(s: Seq<char>, upto: int) -> Seq<char>
    decreases upto,
{
    if upto <= 0 || upto > s.len() {
        Seq::empty()
    } else if s[upto - 1] == '"' {
        escape_quotes_upto(s, upto - 1).push('\\').push('"')
    } else {
        escape_quotes_upto(s, upto - 1).push(s[upto - 1])
    }
}

/// `s` with a backslash put before every double quote.
pub open spec fn escape_quotes(s: Seq<char>) -> Seq<char> {
    escape_quotes_upto(s, s.len() as int)
}

/// Appends `v` to `out`, with a backslash before every double quote.
pub fn push_escaped(out: &mut String, v: &Vec<char>)
    ensures
        final(out)@ == old(out)@ + escape_quotes(v@),
{
    let n: usize = v.len();
    let mut i: usize = 0;
    assert(out@ =~= old(out)@ + escape_quotes_upto(v@, 0));
    while i < n
        invariant
            n == v@.len(),
            i <= n,
            out@ == old(out)@ + escape_quotes_upto(v@, i as int),
        decreases n - i,
    {
        if v[i] == '"' {
            push_char(out, '\\');
            push_char(out, '"');
        } else {
            push_char(out, v[i]);
        }
        i = i + 1;
        assert(out@ =~= old(out)@ + escape_quotes_upto(v@, i as int));
    }
}

} // verus!
