//! Text as sequences of characters: building, comparing, trimming and printing
//! numbers.

use vstd::prelude::*;

verus! {

broadcast use vstd::string::group_string_axioms;

/// `String::push` appends one character.
pub assume_specification[ String::push ](s: &mut String, c: char)
    ensures
        final(s)@ == old(s)@.push(c),
;

/// `String::pop` removes the last character and returns it; an empty string
/// stays empty and gives `None`.
pub assume_specification[ String::pop ](s: &mut String) -> (r: Option<char>)
    ensures
        old(s)@.len() == 0 ==> r is None && final(s)@ == old(s)@,
        old(s)@.len() > 0 ==> r == Some(old(s)@.last()) && final(s)@ == old(s)@.drop_last(),
;

/// The texts that a sequence of strings holds.
pub open spec fn texts(s: Seq<String>) -> Seq<Seq<char>> {
    s.map_values(|x: String| x@)
}

/// The text of an optional string.
pub open spec fn opt_text(o: Option<String>) -> Option<Seq<char>> {
    match o {
        Some(s) => Some(s@),
        None => None,
    }
}

/// The text of an optional borrowed string.
pub open spec fn opt_str(o: Option<&str>) -> Option<Seq<char>> {
    match o {
        Some(s) => Some(s@),
        None => None,
    }
}

/// The characters of `s`.
pub fn chars_of(s: &str) -> (r: Vec<char>)
    ensures
        r@ == s@,
{
    let mut out: Vec<char> = Vec::new();
    for c in it: s.chars()
        invariant
            it.seq() == s@,
            out@ == s@.take(it.index() as int),
    {
        out.push(c);
    }
    assert(s@.take(s@.len() as int) == s@);
    out
}

/// The string made of the characters of `cs` from `from` up to `to`.
pub fn range_string(cs: &[char], from: usize, to: usize) -> (r: String)
    requires
        from <= to <= cs@.len(),
    ensures
        r@ == cs@.subrange(from as int, to as int),
{
    let mut out: String = String::new();
    for i in from..to
        invariant
            from <= to <= cs@.len(),
            out@ == cs@.subrange(from as int, i as int),
    {
        out.push(cs[i]);
    }
    out
}

/// Whether two texts are the same.
pub fn same(a: &str, b: &str) -> (r: bool)
    ensures
        r == (a@ == b@),
{
    a.to_owned() == b.to_owned()
}

/// `a` followed by `b`.
pub fn glue(a: &str, b: &str) -> (r: String)
    ensures
        r@ == a@ + b@,
{
    let mut out: String = a.to_owned();
    out.append(b);
    out
}

/// `a`, `b` and `c` in a row.
pub fn glue3(a: &str, b: &str, c: &str) -> (r: String)
    ensures
        r@ == a@ + b@ + c@,
{
    let mut out: String = a.to_owned();
    out.append(b);
    out.append(c);
    out
}

/// A copy of an optional text.
pub fn copy_opt(o: &Option<String>) -> (r: Option<String>)
    ensures
        r == *o,
{
    match o {
        Some(s) => Some(s.clone()),
        None => None,
    }
}

/// A copy of a list of texts.
pub fn copy_texts(v: &Vec<String>) -> (r: Vec<String>)
    ensures
        r@ == v@,
{
    let mut out: Vec<String> = Vec::new();
    for i in 0..v.len()
        invariant
            out@ == v@.take(i as int),
    {
        out.push(v[i].clone());
    }
    assert(v@.take(v@.len() as int) == v@);
    out
}

// ---- numbers -------------------------------------------------------------

/// The decimal digit of `d`.
pub open spec fn digit(d: nat) -> char {
    (48 + d) as char
}

/// The decimal digits of `n`, without leading zeros.
pub open spec fn decimal(n: nat) -> Seq<char>
    decreases n,
{
    if n < 10 {
        seq![digit(n)]
    } else {
        decimal(n / 10).push(digit(n % 10))
    }
}

/// `n` in decimal.
pub fn number(n: u64) -> (r: String)
    ensures
        r@ == decimal(n as nat),
    decreases n,
{
    let d: u8 = 48 + (n % 10) as u8;
    let mut out: String = if n < 10 {
        String::new()
    } else {
        number(n / 10)
    };
    out.push(d as char);
    out
}

/// `n` in decimal, with a minus sign where it is negative.
pub open spec fn signed(n: int) -> Seq<char> {
    if n < 0 {
        seq!['-'] + decimal((0 - n) as nat)
    } else {
        decimal(n as nat)
    }
}

/// `n` in decimal, with a minus sign where it is negative.
pub fn signed_number(n: i32) -> (r: String)
    ensures
        r@ == signed(n as int),
{
    if n < 0 {
        let size: u64 = (0 - n as i64) as u64;
        let mut out: String = String::new();
        out.push('-');
        out.append(number(size).as_str());
        assert(out@ == seq!['-'] + decimal(size as nat));
        out
    } else {
        number(n as u64)
    }
}

/// `c`, `n` times in a row.
pub open spec fn times(c: char, n: int) -> Seq<char> {
    Seq::new(n as nat, |i: int| c)
}

/// `c`, `n` times in a row.
pub fn repeat(c: char, n: usize) -> (r: String)
    ensures
        r@ == times(c, n as int),
{
    let mut out: String = String::new();
    for i in 0..n
        invariant
            out@ == times(c, i as int),
    {
        out.push(c);
        assert(out@ == times(c, i + 1));
    }
    out
}

// ---- character classes ---------------------------------------------------

/// The characters that Unicode calls white space.
pub open spec fn white(c: char) -> bool {
    let n: u32 = c as u32;
    ||| 0x09 <= n <= 0x0d
    ||| n == 0x20
    ||| n == 0x85
    ||| n == 0xa0
    ||| n == 0x1680
    ||| 0x2000 <= n <= 0x200a
    ||| n == 0x2028
    ||| n == 0x2029
    ||| n == 0x202f
    ||| n == 0x205f
    ||| n == 0x3000
}

/// Whether `c` is white space.
pub fn is_white(c: char) -> (r: bool)
    ensures
        r == white(c),
{
    let n: u32 = c as u32;
    (0x09 <= n && n <= 0x0d) || n == 0x20 || n == 0x85 || n == 0xa0 || n == 0x1680 || (0x2000 <= n
        && n <= 0x200a) || n == 0x2028 || n == 0x2029 || n == 0x202f || n == 0x205f || n == 0x3000
}

/// The control characters.
pub open spec fn control(c: char) -> bool {
    (c as u32) < 0x20 || 0x7f <= (c as u32) < 0xa0
}

/// Whether `c` is a control character.
pub fn is_control(c: char) -> (r: bool)
    ensures
        r == control(c),
{
    let n: u32 = c as u32;
    n < 0x20 || (0x7f <= n && n < 0xa0)
}

// ---- trimming ------------------------------------------------------------

/// `s` without its leading white space.
pub open spec fn trimmed_start(s: Seq<char>) -> Seq<char>
    decreases s.len(),
{
    if s.len() > 0 && white(s[0]) {
        trimmed_start(s.drop_first())
    } else {
        s
    }
}

/// `s` without its trailing white space.
pub open spec fn trimmed_end(s: Seq<char>) -> Seq<char>
    decreases s.len(),
{
    if s.len() > 0 && white(s.last()) {
        trimmed_end(s.drop_last())
    } else {
        s
    }
}

/// `s` without the white space around it.
pub open spec fn trimmed(s: Seq<char>) -> Seq<char> {
    trimmed_end(trimmed_start(s))
}

/// `s` without the white space around it.
pub fn trim(s: &str) -> (r: String)
    ensures
        r@ == trimmed(s@),
{
    let cs: Vec<char> = chars_of(s);
    let mut from: usize = 0;
    assert(cs@.skip(0) == cs@);
    while from < cs.len() && is_white(cs[from])
        invariant
            from <= cs.len(),
            trimmed_start(cs@) == trimmed_start(cs@.skip(from as int)),
        decreases cs.len() - from,
    {
        assert(cs@.skip(from as int).drop_first() == cs@.skip(from as int + 1));
        from = from + 1;
    }
    assert(trimmed_start(cs@) == cs@.skip(from as int));
    let mut to: usize = cs.len();
    assert(cs@.skip(from as int) == cs@.subrange(from as int, to as int));
    while to > from && is_white(cs[to - 1])
        invariant
            from <= to <= cs.len(),
            trimmed(cs@) == trimmed_end(cs@.subrange(from as int, to as int)),
        decreases to - from,
    {
        assert(cs@.subrange(from as int, to as int).drop_last() == cs@.subrange(
            from as int,
            to - 1,
        ));
        to = to - 1;
    }
    range_string(cs.as_slice(), from, to)
}

/// `s` without its trailing white space.
pub fn trim_end(s: &str) -> (r: String)
    ensures
        r@ == trimmed_end(s@),
{
    let cs: Vec<char> = chars_of(s);
    let mut to: usize = cs.len();
    assert(cs@.take(to as int) == cs@);
    while to > 0 && is_white(cs[to - 1])
        invariant
            to <= cs.len(),
            trimmed_end(cs@) == trimmed_end(cs@.take(to as int)),
        decreases to,
    {
        assert(cs@.take(to as int).drop_last() == cs@.take(to - 1));
        to = to - 1;
    }
    range_string(cs.as_slice(), 0, to)
}

// ---- prefixes ------------------------------------------------------------

/// Whether `s` begins with `p`.
pub open spec fn begins(s: Seq<char>, p: Seq<char>) -> bool {
    p.len() <= s.len() && s.take(p.len() as int) == p
}

/// Whether the characters `cs` begin with `p`.
pub fn chars_begin(cs: &[char], p: &[char]) -> (r: bool)
    ensures
        r == begins(cs@, p@),
{
    if cs.len() < p.len() {
        return false;
    }
    for i in 0..p.len()
        invariant
            p.len() <= cs.len(),
            forall|j: int| 0 <= j < i ==> cs@[j] == p@[j],
    {
        if cs[i] != p[i] {
            assert(cs@.take(p@.len() as int)[i as int] != p@[i as int]);
            return false;
        }
    }
    assert(cs@.take(p@.len() as int) == p@);
    true
}

/// Whether `s` begins with `p`.
pub fn has_prefix(s: &str, p: &str) -> (r: bool)
    ensures
        r == begins(s@, p@),
{
    let cs: Vec<char> = chars_of(s);
    let ps: Vec<char> = chars_of(p);
    chars_begin(cs.as_slice(), ps.as_slice())
}

/// What follows `p` in `s`, where `s` begins with `p`.
pub fn after_prefix(s: &str, p: &str) -> (r: Option<String>)
    ensures
        r is Some == begins(s@, p@),
        r matches Some(t) ==> t@ == s@.skip(p@.len() as int),
{
    let cs: Vec<char> = chars_of(s);
    let ps: Vec<char> = chars_of(p);
    if chars_begin(cs.as_slice(), ps.as_slice()) {
        assert(cs@.skip(ps@.len() as int) == cs@.subrange(ps@.len() as int, cs@.len() as int));
        Some(range_string(cs.as_slice(), ps.len(), cs.len()))
    } else {
        None
    }
}

/// The number of characters of `s`.
pub fn length(s: &str) -> (r: usize)
    ensures
        r == s@.len(),
{
    let cs: Vec<char> = chars_of(s);
    cs.len()
}

/// Whether `p` occurs in `s`.
pub open spec fn holds(s: Seq<char>, p: Seq<char>) -> bool {
    exists|i: int| 0 <= i <= s.len() && #[trigger] begins(s.skip(i), p)
}

/// Whether `p` occurs in `s`.
pub fn has_text(s: &str, p: &str) -> (r: bool)
    ensures
        r == holds(s@, p@),
{
    let cs: Vec<char> = chars_of(s);
    let ps: Vec<char> = chars_of(p);
    let mut i: usize = 0;
    loop
        invariant
            cs@ == s@,
            ps@ == p@,
            i <= cs@.len(),
            forall|j: int| 0 <= j < i ==> !#[trigger] begins(s@.skip(j), p@),
        decreases cs@.len() - i,
    {
        let rest: &[char] = vstd::slice::slice_subrange(cs.as_slice(), i, cs.len());
        assert(rest@ == s@.skip(i as int));
        if chars_begin(rest, ps.as_slice()) {
            return true;
        }
        if i >= cs.len() {
            return false;
        }
        i = i + 1;
    }
}

// ---- laws ----------------------------------------------------------------

proof fn end_is_dark(s: Seq<char>)
    ensures
        trimmed_end(s).len() <= s.len(),
        trimmed_end(s) =~= s.take(trimmed_end(s).len() as int),
        trimmed_end(s).len() > 0 ==> !white(trimmed_end(s).last()),
        forall|i: int| trimmed_end(s).len() <= i < s.len() ==> white(#[trigger] s[i]),
    decreases s.len(),
{
    if s.len() > 0 && white(s.last()) {
        end_is_dark(s.drop_last());
        assert forall|i: int| trimmed_end(s).len() <= i < s.len() implies white(
            #[trigger] s[i],
        ) by {
            if i < s.len() - 1 {
                assert(s.drop_last()[i] == s[i]);
            }
        }
    }
}

proof fn start_is_dark(s: Seq<char>)
    ensures
        trimmed_start(s).len() <= s.len(),
        trimmed_start(s) =~= s.skip(s.len() - trimmed_start(s).len()),
        trimmed_start(s).len() > 0 ==> !white(trimmed_start(s)[0]),
        forall|i: int| 0 <= i < s.len() - trimmed_start(s).len() ==> white(#[trigger] s[i]),
    decreases s.len(),
{
    if s.len() > 0 && white(s[0]) {
        start_is_dark(s.drop_first());
        assert forall|i: int| 0 <= i < s.len() - trimmed_start(s).len() implies white(
            #[trigger] s[i],
        ) by {
            if i > 0 {
                assert(s.drop_first()[i - 1] == s[i]);
            }
        }
    }
}

/// Trimming takes white space off both ends and nothing else: what is left neither
/// begins nor ends with any, and stands in the text with only white space around it.
pub proof fn trimming_takes_only_white_space(s: Seq<char>) -> (at: int)
    ensures
        0 <= at <= at + trimmed(s).len() <= s.len(),
        s.subrange(at, at + trimmed(s).len()) == trimmed(s),
        trimmed(s).len() > 0 ==> !white(trimmed(s)[0]) && !white(trimmed(s).last()),
        forall|i: int| 0 <= i < at ==> white(#[trigger] s[i]),
        forall|i: int| at + trimmed(s).len() <= i < s.len() ==> white(#[trigger] s[i]),
{
    start_is_dark(s);
    let rest = trimmed_start(s);
    end_is_dark(rest);
    let at = s.len() - rest.len();
    assert(s.subrange(at, at + trimmed(s).len()) =~= trimmed(s));
    assert forall|i: int| at + trimmed(s).len() <= i < s.len() implies white(#[trigger] s[i]) by {
        assert(rest[i - at] == s[i]);
    }
    at
}

/// Blanks, tabs and line ends are white space, and letters, digits and the marks of
/// paths are not; line ends and escapes are control characters, and blanks are not.
pub proof fn characters_are_what_they_are(c: char)
    ensures
        c == ' ' || c == '\t' || c == '\n' || c == '\r' ==> white(c),
        ('a' <= c <= 'z') || ('A' <= c <= 'Z') || ('0' <= c <= '9') || c == '/' || c == '~' || c
            == '.' || c == '-' ==> !white(c) && !control(c),
        c == '\n' || c == '\r' || c == '\t' ==> control(c),
        c == ' ' ==> !control(c),
{
}

} // verus!
