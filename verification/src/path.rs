//! Unix paths as text. A path is a sequence of pieces between slashes; empty
//! pieces and `.` pieces count for nothing, except that a path may begin at the
//! root (`/`) or at the current directory (`.`).

use vstd::prelude::*;

use crate::text::{chars_of, glue, glue3, range_string, same};

verus! {

broadcast use vstd::string::group_string_axioms;

// ---- what a path is ------------------------------------------------------

/// Whether `s` starts at the root.
pub open spec fn absolute(s: Seq<char>) -> bool {
    s.len() > 0 && s[0] == '/'
}

/// Whether `s` starts with a piece that is a lone `.`.
pub open spec fn from_here(s: Seq<char>) -> bool {
    s.len() > 0 && s[0] == '.' && (s.len() == 1 || s[1] == '/')
}

/// Where the pieces of `s` begin: past the root or the leading `.`.
pub open spec fn lead(s: Seq<char>) -> int {
    if absolute(s) || from_here(s) {
        1
    } else {
        0
    }
}

/// Where the piece that begins at `b` ends.
pub open spec fn piece_end(s: Seq<char>, b: int) -> int
    decreases s.len() - b,
{
    if b < 0 || b >= s.len() || s[b] == '/' {
        b
    } else {
        piece_end(s, b + 1)
    }
}

/// Where the piece that ends at `e` begins, looking back no further than `lo`.
pub open spec fn piece_start(s: Seq<char>, lo: int, e: int) -> int
    decreases e - lo,
{
    if e <= lo || s[e - 1] == '/' {
        e
    } else {
        piece_start(s, lo, e - 1)
    }
}

/// Whether the piece from `b` to `e` counts for nothing.
pub open spec fn idle_piece(s: Seq<char>, b: int, e: int) -> bool {
    b >= e || (e == b + 1 && s[b] == '.')
}

/// A piece ends no earlier than it begins, and within the text.
pub proof fn piece_end_bounds(s: Seq<char>, b: int)
    requires
        0 <= b <= s.len(),
    ensures
        b <= piece_end(s, b) <= s.len(),
    decreases s.len() - b,
{
    if b < s.len() && s[b] != '/' {
        piece_end_bounds(s, b + 1);
    }
}

/// The end of `s[lo..e]` once the pieces at its end that count for nothing are
/// cut off.
pub open spec fn cut_back(s: Seq<char>, lo: int, e: int) -> int
    decreases e - lo,
{
    if e <= lo {
        lo
    } else {
        let b = piece_start(s, lo, e);
        if !idle_piece(s, b, e) {
            e
        } else if lo < b <= e {
            cut_back(s, lo, b - 1)
        } else {
            lo
        }
    }
}

/// The pieces of `s` from `b` on that count.
pub open spec fn pieces(s: Seq<char>, b: int) -> Seq<Seq<char>>
    decreases s.len() + 1 - b,
{
    if b < 0 || b >= s.len() {
        Seq::empty()
    } else {
        let e = piece_end(s, b);
        proof {
            piece_end_bounds(s, b);
        }
        if idle_piece(s, b, e) {
            pieces(s, e + 1)
        } else {
            seq![s.subrange(b, e)] + pieces(s, e + 1)
        }
    }
}

/// The components of `s`: the root or the leading `.`, then the pieces that
/// count. Two texts name the same path when these agree.
pub open spec fn components(s: Seq<char>) -> Seq<Seq<char>> {
    let first: Seq<Seq<char>> = if lead(s) == 1 {
        seq![seq![s[0]]]
    } else {
        Seq::empty()
    };
    first + pieces(s, lead(s))
}

/// Where the text goes on once `n` pieces that count, from `b` on, are taken
/// off its front together with what counts for nothing before the next one.
pub open spec fn skip_pieces(s: Seq<char>, b: int, n: nat) -> int
    decreases s.len() + 1 - b,
{
    if b < 0 || b >= s.len() {
        s.len() as int
    } else {
        let e = piece_end(s, b);
        proof {
            piece_end_bounds(s, b);
        }
        if idle_piece(s, b, e) {
            skip_pieces(s, e + 1, n)
        } else if n == 0 {
            b
        } else {
            skip_pieces(s, e + 1, (n - 1) as nat)
        }
    }
}

// ---- what the operations give --------------------------------------------

/// The last component of `s`, where it is a name: not the root, `.` or `..`.
pub open spec fn base_name(s: Seq<char>) -> Option<Seq<char>> {
    let lo = lead(s);
    let e = cut_back(s, lo, s.len() as int);
    let b = piece_start(s, lo, e);
    if e <= lo || s.subrange(b, e) == seq!['.', '.'] {
        None
    } else {
        Some(s.subrange(b, e))
    }
}

/// `s` without its last component; nothing for the root and the empty path.
pub open spec fn parent_of(s: Seq<char>) -> Option<Seq<char>> {
    let lo = lead(s);
    let e = cut_back(s, lo, s.len() as int);
    let b = piece_start(s, lo, e);
    if e > lo {
        Some(s.take(if b > lo { cut_back(s, lo, b - 1) } else { lo }))
    } else if from_here(s) {
        Some(Seq::empty())
    } else {
        None
    }
}

/// `b` seen from `a`.
pub open spec fn joined(a: Seq<char>, b: Seq<char>) -> Seq<char> {
    if absolute(b) {
        b
    } else if a.len() > 0 && a.last() != '/' {
        a + seq!['/'] + b
    } else {
        a + b
    }
}

/// What is left of `s` below `base`; nothing where `s` does not lie there.
pub open spec fn below(s: Seq<char>, base: Seq<char>) -> Option<Seq<char>> {
    let k = components(base).len();
    if !components(base).is_prefix_of(components(s)) {
        None
    } else if k == 0 {
        Some(s.take(cut_back(s, lead(s), s.len() as int)))
    } else {
        let b = skip_pieces(s, lead(s), (k - lead(s)) as nat);
        Some(s.subrange(b, cut_back(s, b, s.len() as int)))
    }
}

proof fn piece_start_bounds(s: Seq<char>, lo: int, e: int)
    requires
        lo <= e,
    ensures
        lo <= piece_start(s, lo, e) <= e,
    decreases e - lo,
{
    if e > lo && s[e - 1] != '/' {
        piece_start_bounds(s, lo, e - 1);
    }
}

proof fn cut_back_bounds(s: Seq<char>, lo: int, e: int)
    requires
        lo <= e,
    ensures
        lo <= cut_back(s, lo, e) <= e,
    decreases e - lo,
{
    if lo < e {
        piece_start_bounds(s, lo, e);
        let b = piece_start(s, lo, e);
        if idle_piece(s, b, e) && lo < b {
            cut_back_bounds(s, lo, b - 1);
        }
    }
}

/// A parent's text is shorter than the path's.
pub proof fn parent_is_shorter(s: Seq<char>)
    ensures
        parent_of(s) matches Some(p) ==> p.len() < s.len(),
{
    let lo = lead(s);
    cut_back_bounds(s, lo, s.len() as int);
    let e = cut_back(s, lo, s.len() as int);
    piece_start_bounds(s, lo, e);
    let b = piece_start(s, lo, e);
    if b > lo {
        cut_back_bounds(s, lo, b - 1);
    }
}

/// A parent starts at the root where the path does.
pub proof fn parent_stays_absolute(s: Seq<char>)
    requires
        absolute(s),
    ensures
        parent_of(s) matches Some(p) ==> absolute(p),
{
    cut_back_bounds(s, 1, s.len() as int);
    let e = cut_back(s, 1, s.len() as int);
    piece_start_bounds(s, 1, e);
    let b = piece_start(s, 1, e);
    if b > 1 {
        cut_back_bounds(s, 1, b - 1);
    }
}

/// `s` and the paths above it, from the nearest to the farthest.
pub open spec fn ancestors_of(s: Seq<char>) -> Seq<Seq<char>>
    decreases s.len(),
{
    proof {
        parent_is_shorter(s);
    }
    match parent_of(s) {
        Some(p) => seq![s] + ancestors_of(p),
        None => seq![s],
    }
}

// ---- the operations ------------------------------------------------------

fn lead_of(s: &Vec<char>) -> (r: usize)
    ensures
        r == lead(s@),
        r <= s@.len(),
{
    if s.len() > 0 && (s[0] == '/' || (s[0] == '.' && (s.len() == 1 || s[1] == '/'))) {
        1
    } else {
        0
    }
}

fn end_of_piece(s: &Vec<char>, b: usize) -> (r: usize)
    requires
        b <= s@.len(),
    ensures
        r == piece_end(s@, b as int),
        b <= r <= s@.len(),
{
    let mut e: usize = b;
    while e < s.len() && s[e] != '/'
        invariant
            b <= e <= s.len(),
            piece_end(s@, b as int) == piece_end(s@, e as int),
        decreases s.len() - e,
    {
        e = e + 1;
    }
    e
}

fn start_of_piece(s: &Vec<char>, lo: usize, e: usize) -> (r: usize)
    requires
        lo <= e <= s@.len(),
    ensures
        r == piece_start(s@, lo as int, e as int),
        lo <= r <= e,
{
    let mut b: usize = e;
    while b > lo && s[b - 1] != '/'
        invariant
            lo <= b <= e <= s.len(),
            piece_start(s@, lo as int, e as int) == piece_start(s@, lo as int, b as int),
        decreases b - lo,
    {
        b = b - 1;
    }
    b
}

fn is_idle(s: &Vec<char>, b: usize, e: usize) -> (r: bool)
    requires
        b <= e <= s@.len(),
    ensures
        r == idle_piece(s@, b as int, e as int),
{
    b >= e || (e - b == 1 && s[b] == '.')
}

fn cut_end(s: &Vec<char>, lo: usize, e: usize) -> (r: usize)
    requires
        lo <= e <= s@.len(),
    ensures
        r == cut_back(s@, lo as int, e as int),
        lo <= r <= e,
    decreases e,
{
    if e <= lo {
        return lo;
    }
    let b: usize = start_of_piece(s, lo, e);
    if !is_idle(s, b, e) {
        e
    } else if b > lo {
        cut_end(s, lo, b - 1)
    } else {
        lo
    }
}

/// Whether `s` starts at the root.
pub fn is_absolute(s: &str) -> (r: bool)
    ensures
        r == absolute(s@),
{
    let cs: Vec<char> = chars_of(s);
    cs.len() > 0 && cs[0] == '/'
}

/// The last component of `s`, where it is a name.
pub fn file_name(s: &str) -> (r: Option<String>)
    ensures
        crate::text::opt_text(r) == base_name(s@),
{
    let cs: Vec<char> = chars_of(s);
    let lo: usize = lead_of(&cs);
    let e: usize = cut_end(&cs, lo, cs.len());
    let b: usize = start_of_piece(&cs, lo, e);
    proof {
        reveal_strlit("..");
        assert(".."@ == seq!['.', '.']);
    }
    if e <= lo {
        return None;
    }
    let name: String = range_string(cs.as_slice(), b, e);
    if same(name.as_str(), "..") {
        None
    } else {
        Some(name)
    }
}

/// `s` without its last component.
pub fn parent(s: &str) -> (r: Option<String>)
    ensures
        crate::text::opt_text(r) == parent_of(s@),
{
    let cs: Vec<char> = chars_of(s);
    let lo: usize = lead_of(&cs);
    let e: usize = cut_end(&cs, lo, cs.len());
    if e > lo {
        let b: usize = start_of_piece(&cs, lo, e);
        let cut: usize = if b > lo {
            cut_end(&cs, lo, b - 1)
        } else {
            lo
        };
        Some(range_string(cs.as_slice(), 0, cut))
    } else if lo == 1 && cs[0] == '.' {
        Some(String::new())
    } else {
        None
    }
}

/// `b` seen from `a`.
pub fn join(a: &str, b: &str) -> (r: String)
    ensures
        r@ == joined(a@, b@),
{
    if is_absolute(b) {
        return b.to_owned();
    }
    let cs: Vec<char> = chars_of(a);
    if cs.len() > 0 && cs[cs.len() - 1] != '/' {
        proof {
            reveal_strlit("/");
            assert("/"@ == seq!['/']);
        }
        glue3(a, "/", b)
    } else {
        glue(a, b)
    }
}

/// The components of `s`, in order.
pub fn parts(s: &str) -> (r: Vec<String>)
    ensures
        crate::text::texts(r@) == components(s@),
{
    let cs: Vec<char> = chars_of(s);
    let mut out: Vec<String> = Vec::new();
    let mut b: usize = lead_of(&cs);
    if b == 1 {
        out.push(range_string(cs.as_slice(), 0, 1));
        assert(cs@.subrange(0, 1) == seq![cs@[0]]);
    }
    assert(crate::text::texts(out@) + pieces(cs@, b as int) == components(cs@));
    while b < cs.len()
        invariant
            b <= cs.len(),
            crate::text::texts(out@) + pieces(cs@, b as int) == components(cs@),
        decreases cs.len() - b,
    {
        let e: usize = end_of_piece(&cs, b);
        let ghost before = crate::text::texts(out@);
        if !is_idle(&cs, b, e) {
            out.push(range_string(cs.as_slice(), b, e));
            assert(crate::text::texts(out@) == before + seq![cs@.subrange(b as int, e as int)]);
        }
        proof {
            let rest = pieces(cs@, e + 1);
            assert(before + (seq![cs@.subrange(b as int, e as int)] + rest) == (before + seq![
                cs@.subrange(b as int, e as int),
            ]) + rest);
        }
        b = if e < cs.len() {
            e + 1
        } else {
            e
        };
        assert(pieces(cs@, b as int) == pieces(cs@, e + 1));
    }
    assert(crate::text::texts(out@) + Seq::<Seq<char>>::empty() == crate::text::texts(out@));
    out
}

fn skip_front(s: &Vec<char>, from: usize, count: usize) -> (r: usize)
    requires
        from <= s@.len(),
    ensures
        r == skip_pieces(s@, from as int, count as nat),
        r <= s@.len(),
{
    let mut b: usize = from;
    let mut n: usize = count;
    while b < s.len()
        invariant
            b <= s.len(),
            skip_pieces(s@, from as int, count as nat) == skip_pieces(s@, b as int, n as nat),
        decreases s.len() - b,
    {
        let e: usize = end_of_piece(s, b);
        if !is_idle(s, b, e) {
            if n == 0 {
                return b;
            }
            n = n - 1;
        }
        b = if e < s.len() {
            e + 1
        } else {
            e
        };
        assert(skip_pieces(s@, b as int, n as nat) == skip_pieces(s@, e + 1, n as nat));
    }
    b
}

/// What is left of `s` below `base`, where `s` lies there.
pub fn strip_prefix(s: &str, base: &str) -> (r: Option<String>)
    ensures
        crate::text::opt_text(r) == below(s@, base@),
{
    let mine: Vec<String> = parts(s);
    let theirs: Vec<String> = parts(base);
    let ghost m = components(s@);
    let ghost t = components(base@);
    if theirs.len() > mine.len() {
        return None;
    }
    for i in 0..theirs.len()
        invariant
            theirs.len() <= mine.len(),
            m == components(s@),
            t == components(base@),
            crate::text::texts(mine@) == m,
            crate::text::texts(theirs@) == t,
            forall|j: int| 0 <= j < i ==> m[j] == t[j],
    {
        assert(m[i as int] == mine@[i as int]@);
        assert(t[i as int] == theirs@[i as int]@);
        if !same(mine[i].as_str(), theirs[i].as_str()) {
            assert(m.subrange(0, t.len() as int)[i as int] != t[i as int]);
            return None;
        }
    }
    assert(t == m.subrange(0, t.len() as int));
    let cs: Vec<char> = chars_of(s);
    let lo: usize = lead_of(&cs);
    if theirs.len() == 0 {
        let e: usize = cut_end(&cs, lo, cs.len());
        assert(cs@.take(e as int) == cs@.subrange(0, e as int));
        Some(range_string(cs.as_slice(), 0, e))
    } else {
        assert(t.len() >= 1);
        let b: usize = skip_front(&cs, lo, theirs.len() - lo);
        let e: usize = cut_end(&cs, b, cs.len());
        Some(range_string(cs.as_slice(), b, e))
    }
}

/// Whether two texts name the same path.
pub fn same_path(a: &str, b: &str) -> (r: bool)
    ensures
        r == (components(a@) == components(b@)),
{
    let x: Vec<String> = parts(a);
    let y: Vec<String> = parts(b);
    let ghost p = components(a@);
    let ghost q = components(b@);
    if x.len() != y.len() {
        assert(p.len() != q.len());
        return false;
    }
    for i in 0..x.len()
        invariant
            x.len() == y.len(),
            p == components(a@),
            q == components(b@),
            crate::text::texts(x@) == p,
            crate::text::texts(y@) == q,
            forall|j: int| 0 <= j < i ==> p[j] == q[j],
    {
        assert(p[i as int] == x@[i as int]@);
        assert(q[i as int] == y@[i as int]@);
        if !same(x[i].as_str(), y[i].as_str()) {
            return false;
        }
    }
    assert(p == q);
    true
}

/// `s` and the paths above it, from the nearest to the farthest.
pub fn ancestors(s: &str) -> (r: Vec<String>)
    ensures
        crate::text::texts(r@) == ancestors_of(s@),
{
    let mut out: Vec<String> = Vec::new();
    let mut cur: String = s.to_owned();
    assert(crate::text::texts(out@) + ancestors_of(cur@) == ancestors_of(s@));
    loop
        invariant
            crate::text::texts(out@) + ancestors_of(cur@) == ancestors_of(s@),
        decreases cur@.len(),
    {
        let ghost have = crate::text::texts(out@);
        let ghost here = cur@;
        proof {
            parent_is_shorter(cur@);
        }
        let next: Option<String> = parent(cur.as_str());
        out.push(cur);
        assert(crate::text::texts(out@) == have.push(here));
        match next {
            Some(p) => {
                cur = p;
                assert(have + (seq![here] + ancestors_of(cur@)) == have.push(here) + ancestors_of(
                    cur@,
                ));
            },
            None => {
                assert(have + seq![here] == have.push(here));
                return out;
            },
        }
    }
}

// ---- how texts and components go together --------------------------------

proof fn piece_end_shifts(a: Seq<char>, u: Seq<char>, b: int)
    requires
        0 <= b <= u.len(),
    ensures
        piece_end(a + u, a.len() + b) == a.len() + piece_end(u, b),
    decreases u.len() - b,
{
    if b < u.len() && u[b] != '/' {
        piece_end_shifts(a, u, b + 1);
    }
}

proof fn pieces_shift(a: Seq<char>, u: Seq<char>, b: int)
    requires
        0 <= b,
    ensures
        pieces(a + u, a.len() + b) == pieces(u, b),
    decreases u.len() + 1 - b,
{
    if b < u.len() {
        piece_end_shifts(a, u, b);
        piece_end_bounds(u, b);
        let e = piece_end(u, b);
        pieces_shift(a, u, e + 1);
        assert((a + u).subrange(a.len() + b, a.len() + e) =~= u.subrange(b, e));
    }
}

proof fn piece_ends_before(a: Seq<char>, u: Seq<char>, b: int)
    requires
        0 <= b < a.len(),
        a.last() == '/',
    ensures
        piece_end(a + u, b) == piece_end(a, b),
        b <= piece_end(a, b) < a.len(),
    decreases a.len() - b,
{
    if a[b] != '/' {
        piece_ends_before(a, u, b + 1);
    }
}

/// The pieces of two texts, the first of which ends in a slash, are those of the
/// one and then those of the other.
pub proof fn pieces_join(a: Seq<char>, u: Seq<char>, b: int)
    requires
        0 <= b <= a.len(),
        a.len() > 0 ==> a.last() == '/',
    ensures
        pieces(a + u, b) == pieces(a, b) + pieces(u, 0),
    decreases a.len() - b,
{
    if b == a.len() {
        pieces_shift(a, u, 0);
        assert(pieces(a, b) + pieces(u, 0) =~= pieces(u, 0));
    } else {
        piece_ends_before(a, u, b);
        let e = piece_end(a, b);
        pieces_join(a, u, e + 1);
        assert((a + u).subrange(b, e) =~= a.subrange(b, e));
        assert((seq![a.subrange(b, e)] + pieces(a, e + 1)) + pieces(u, 0) =~= seq![
            a.subrange(b, e),
        ] + (pieces(a, e + 1) + pieces(u, 0)));
    }
}

proof fn piece_end_stays(s: Seq<char>, b: int)
    requires
        0 <= b <= s.len(),
    ensures
        piece_end(s.push('/'), b) == piece_end(s, b),
    decreases s.len() - b,
{
    if b < s.len() && s[b] != '/' {
        piece_end_stays(s, b + 1);
    }
}

/// A slash at the end adds no piece.
pub proof fn slash_adds_nothing(s: Seq<char>, b: int)
    requires
        0 <= b,
    ensures
        pieces(s.push('/'), b) == pieces(s, b),
    decreases s.len() + 1 - b,
{
    if b < s.len() {
        piece_end_stays(s, b);
        piece_end_bounds(s, b);
        let e = piece_end(s, b);
        slash_adds_nothing(s, e + 1);
        assert(s.push('/').subrange(b, e) =~= s.subrange(b, e));
    } else if b == s.len() {
        assert(s.push('/')[b] == '/');
        assert(pieces(s.push('/'), b + 1) == Seq::<Seq<char>>::empty());
    }
}

proof fn last_piece(s: Seq<char>, lo: int, e: int)
    requires
        0 <= lo <= e <= s.len(),
    ensures
        ({
            let b = piece_start(s, lo, e);
            &&& lo <= b <= e
            &&& b > lo ==> s[b - 1] == '/'
            &&& forall|i: int| b <= i < e ==> s[i] != '/'
        }),
    decreases e - lo,
{
    if e > lo && s[e - 1] != '/' {
        last_piece(s, lo, e - 1);
    }
}

proof fn idle_has_no_pieces(u: Seq<char>)
    requires
        idle_piece(u, 0, u.len() as int),
        forall|i: int| 0 <= i < u.len() ==> u[i] != '/',
    ensures
        pieces(u, 0) == Seq::<Seq<char>>::empty(),
{
    if u.len() == 1 {
        assert(piece_end(u, 1) == 1);
        assert(piece_end(u, 0) == 1);
        assert(pieces(u, 2) == Seq::<Seq<char>>::empty());
    }
}

proof fn cutting_back_keeps_pieces(s: Seq<char>, lo: int, e: int)
    requires
        0 <= lo <= e <= s.len(),
    ensures
        pieces(s.take(cut_back(s, lo, e)), lo) == pieces(s.take(e), lo),
    decreases e - lo,
{
    if e > lo {
        let b = piece_start(s, lo, e);
        last_piece(s, lo, e);
        if idle_piece(s, b, e) {
            let u = s.subrange(b, e);
            assert forall|i: int| 0 <= i < u.len() implies u[i] != '/' by {
                assert(s[b + i] != '/');
            }
            idle_has_no_pieces(u);
            if b > lo {
                let a = s.take(b);
                assert(s.take(e) =~= a + u);
                pieces_join(a, u, lo);
                assert(a =~= s.take(b - 1).push('/'));
                slash_adds_nothing(s.take(b - 1), lo);
                cutting_back_keeps_pieces(s, lo, b - 1);
                assert(pieces(a, lo) + Seq::<Seq<char>>::empty() =~= pieces(a, lo));
            } else {
                assert(s.take(e) =~= s.take(lo) + u);
                pieces_shift(s.take(lo), u, 0);
            }
        }
    }
}

proof fn skipping_drops_pieces(s: Seq<char>, b: int, n: nat)
    requires
        0 <= b <= s.len(),
        n <= pieces(s, b).len(),
    ensures
        b <= skip_pieces(s, b, n) <= s.len(),
        pieces(s, skip_pieces(s, b, n)) == pieces(s, b).skip(n as int),
        skip_pieces(s, b, n) < s.len() ==> s[skip_pieces(s, b, n)] != '/',
    decreases s.len() - b,
{
    if b < s.len() {
        piece_end_bounds(s, b);
        let e = piece_end(s, b);
        let rest = pieces(s, e + 1);
        let whole = pieces(s, b);
        if idle_piece(s, b, e) {
            if e < s.len() {
                skipping_drops_pieces(s, e + 1, n);
            } else {
                assert(skip_pieces(s, e + 1, n) == s.len());
                assert(rest.skip(n as int) =~= rest);
            }
        } else if n == 0 {
            assert(whole.skip(0) =~= whole);
        } else {
            assert(whole.skip(n as int) =~= rest.skip(n - 1));
            if e < s.len() {
                skipping_drops_pieces(s, e + 1, (n - 1) as nat);
            } else {
                assert(skip_pieces(s, e + 1, (n - 1) as nat) == s.len());
                assert(rest.skip(n - 1) =~= rest);
            }
        }
    } else {
        assert(pieces(s, b).skip(n as int) =~= pieces(s, b));
    }
}

/// What is left of an absolute path below another, seen from that other, names
/// the path again.
pub proof fn below_leads_back(s: Seq<char>, base: Seq<char>)
    requires
        absolute(s),
        absolute(base),
        below(s, base) is Some,
    ensures
        components(joined(base, below(s, base)->0)) == components(s),
        below(s, base)->0.len() > 0 ==> below(s, base)->0[0] != '/',
{
    let m = pieces(base, 1).len();
    let mine = pieces(s, 1);
    let first: Seq<Seq<char>> = seq![seq!['/']];
    assert(components(s) == first + mine);
    assert(components(base) == first + pieces(base, 1));
    assert(components(s).take(m as int + 1) =~= components(base));
    assert(mine.take(m as int) =~= pieces(base, 1)) by {
        assert forall|i: int| 0 <= i < m implies mine[i] == pieces(base, 1)[i] by {
            assert(components(s).take(m as int + 1)[i + 1] == components(base)[i + 1]);
        }
    }
    skipping_drops_pieces(s, 1, m);
    let b = skip_pieces(s, 1, m);
    let cut = cut_back(s, b, s.len() as int);
    let rest = s.subrange(b, cut);
    cut_back_bounds(s, b, s.len() as int);
    cutting_back_keeps_pieces(s, b, s.len() as int);
    assert(s.take(s.len() as int) =~= s);
    assert(s.take(cut) =~= s.take(b) + rest);
    pieces_shift(s.take(b), rest, 0);
    assert(pieces(rest, 0) == mine.skip(m as int));
    let a = if base.last() == '/' {
        base
    } else {
        base.push('/')
    };
    slash_adds_nothing(base, 1);
    assert(joined(base, rest) =~= a + rest);
    pieces_join(a, rest, 1);
    assert(absolute(a + rest));
    assert(components(a + rest) == first + (pieces(base, 1) + pieces(rest, 0)));
    assert(pieces(base, 1) + mine.skip(m as int) =~= mine);
}

} // verus!
