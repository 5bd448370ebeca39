//! Reaching the daemon: whether it runs, where its program is, and how it is
//! stopped.

use vstd::prelude::*;

use crate::path::{base_name, file_name, join, joined, parent, parent_of};
use crate::text::{chars_of, decimal, signed, trim, trimmed};

verus! {

broadcast use vstd::string::group_string_axioms;

/// Why a connection could not be made.
#[derive(Debug, Clone, Copy, PartialEq, Eq, Structural)]
pub enum ErrorKind {
    NotFound,
    ConnectionRefused,
    Other,
}

/// Whether the daemon is not running, going by why a connection could not be
/// made.
pub fn not_running(e: ErrorKind) -> (r: bool)
    ensures
        r == (e == ErrorKind::NotFound || e == ErrorKind::ConnectionRefused),
{
    matches!(e, ErrorKind::NotFound | ErrorKind::ConnectionRefused)
}

/// Whether to try again while the daemon starts.
pub fn keeps_waiting(e: ErrorKind, before_deadline: bool) -> (r: bool)
    ensures
        r == (before_deadline && (e == ErrorKind::NotFound || e == ErrorKind::ConnectionRefused)),
{
    not_running(e) && before_deadline
}

/// The daemon's program beside a program; below a path that does not end in a
/// name.
pub open spec fn beside(current: Seq<char>) -> Seq<char> {
    match (base_name(current), parent_of(current)) {
        (Some(_), Some(dir)) => joined(dir, "tutti-server"@),
        _ => joined(current, "tutti-server"@),
    }
}

/// The daemon's program beside a program.
pub fn server_sibling(current: &str) -> (r: String)
    ensures
        r@ == beside(current@),
{
    match (file_name(current), parent(current)) {
        (Some(_), Some(dir)) => join(dir.as_str(), "tutti-server"),
        _ => join(current, "tutti-server"),
    }
}

/// The daemon's program: the one beside this program where it is a file, else
/// whichever the shell finds.
pub fn server_exe(current: &str, sibling_is_file: bool) -> (r: String)
    ensures
        r@ == (if sibling_is_file {
            beside(current@)
        } else {
            "tutti-server"@
        }),
{
    if sibling_is_file {
        server_sibling(current)
    } else {
        "tutti-server".to_owned()
    }
}

/// What became of stopping the daemon.
#[derive(Debug, Clone, Copy, PartialEq, Eq, Structural)]
pub enum StopOutcome {
    Signalled(i32),
    NotRunning,
}

// ---- numbers -------------------------------------------------------------

/// Whether every character is a decimal digit.
pub open spec fn all_digits(s: Seq<char>) -> bool {
    forall|i: int| 0 <= i < s.len() ==> '0' <= #[trigger] s[i] <= '9'
}

/// The number that digits write.
pub open spec fn value(s: Seq<char>) -> nat
    decreases s.len(),
{
    if s.len() == 0 {
        0
    } else {
        value(s.drop_last()) * 10 + (s.last() as nat - 48) as nat
    }
}

/// The number that a text is: digits, at least one.
pub open spec fn natural(s: Seq<char>) -> Option<nat> {
    if s.len() > 0 && all_digits(s) {
        Some(value(s))
    } else {
        None
    }
}

/// The whole number that a text is, with a sign or without.
pub open spec fn whole(s: Seq<char>) -> Option<int> {
    if s.len() > 0 && s[0] == '-' {
        match natural(s.drop_first()) {
            Some(n) => Some(0 - n),
            None => None,
        }
    } else {
        match unsigned(s) {
            Some(n) => Some(n as int),
            None => None,
        }
    }
}

/// The number that a text is, with a plus sign or without.
pub open spec fn unsigned(s: Seq<char>) -> Option<nat> {
    natural(
        if s.len() > 0 && s[0] == '+' {
            s.drop_first()
        } else {
            s
        },
    )
}

proof fn values_grow(s: Seq<char>, n: int)
    requires
        0 <= n <= s.len(),
    ensures
        value(s.take(n)) <= value(s),
    decreases s.len() - n,
{
    if n < s.len() {
        assert(s.take(n + 1).drop_last() =~= s.take(n));
        values_grow(s, n + 1);
    } else {
        assert(s.take(n) =~= s);
    }
}

/// The number that the characters from `from` on are, where it fits.
fn read_digits(cs: &Vec<char>, from: usize) -> (r: Option<u64>)
    requires
        from <= cs@.len(),
    ensures
        match r {
            Some(n) => natural(cs@.skip(from as int)) == Some(n as nat),
            None => natural(cs@.skip(from as int)) matches Some(n) ==> n > u64::MAX,
        },
{
    let ghost s = cs@.skip(from as int);
    if from == cs.len() {
        return None;
    }
    let mut n: u64 = 0;
    assert(s.take(0) =~= Seq::empty());
    for i in from..cs.len()
        invariant
            from < cs@.len(),
            s == cs@.skip(from as int),
            all_digits(s.take(i - from)),
            n == value(s.take(i - from)),
    {
        let c: char = cs[i];
        assert(s[i - from] == c);
        if c < '0' || c > '9' {
            return None;
        }
        let d: u64 = c as u64 - 48;
        let ghost longer = s.take(i - from + 1);
        assert(longer.drop_last() =~= s.take(i - from));
        assert(value(longer) == n as nat * 10 + d as nat);
        if n > (u64::MAX - d) / 10 {
            proof {
                values_grow(s, i - from + 1);
            }
            return None;
        }
        n = n * 10 + d;
    }
    assert(s.take(s.len() as int) =~= s);
    Some(n)
}

/// The pane number that a text is.
pub fn parse_pane(text: &str) -> (r: Option<u64>)
    ensures
        match r {
            Some(n) => unsigned(text@) == Some(n as nat),
            None => unsigned(text@) matches Some(n) ==> n > u64::MAX,
        },
{
    let cs: Vec<char> = chars_of(text);
    if cs.len() > 0 && cs[0] == '+' {
        assert(cs@.skip(1) =~= cs@.drop_first());
        read_digits(&cs, 1)
    } else {
        assert(cs@.skip(0) =~= cs@);
        read_digits(&cs, 0)
    }
}

/// The process number that a text is, whatever white space is around it.
pub fn parse_pid(text: &str) -> (r: Option<i32>)
    ensures
        match r {
            Some(n) => whole(trimmed(text@)) == Some(n as int),
            None => whole(trimmed(text@)) matches Some(n) ==> n < i32::MIN || n > i32::MAX,
        },
{
    let line: String = trim(text);
    let cs: Vec<char> = chars_of(line.as_str());
    if cs.len() > 0 && cs[0] == '-' {
        assert(cs@.skip(1) =~= cs@.drop_first());
        match read_digits(&cs, 1) {
            Some(n) => if n <= 0x8000_0000 {
                Some((0 - n as i64) as i32)
            } else {
                None
            },
            None => None,
        }
    } else {
        match parse_pane(line.as_str()) {
            Some(n) => if n <= 0x7fff_ffff {
                Some(n as i32)
            } else {
                None
            },
            None => None,
        }
    }
}

// ---- laws ----------------------------------------------------------------

/// A number that is written is read as the same number, so no two are written alike.
pub proof fn numbers_read_back(n: nat)
    ensures
        natural(decimal(n)) == Some(n),
        unsigned(decimal(n)) == Some(n),
    decreases n,
{
    let s = decimal(n);
    if n >= 10 {
        numbers_read_back(n / 10);
        let front = decimal(n / 10);
        assert(s.drop_last() =~= front);
        assert(s.last() == crate::text::digit(n % 10));
        assert(all_digits(s)) by {
            assert forall|i: int| 0 <= i < s.len() implies '0' <= #[trigger] s[i] <= '9' by {
                if i < front.len() {
                    assert(s[i] == front[i]);
                }
            }
        }
        assert(value(s) == value(front) * 10 + n % 10);
    } else {
        assert(s.drop_last() =~= Seq::<char>::empty());
        assert(value(s.drop_last()) == 0);
    }
    assert(s[0] != '+') by {
        assert(all_digits(s));
    }
}

/// A whole number that is written is read as the same number, with its sign.
pub proof fn signed_numbers_read_back(n: int)
    ensures
        whole(signed(n)) == Some(n),
{
    if n < 0 {
        numbers_read_back((0 - n) as nat);
        assert(signed(n).drop_first() =~= decimal((0 - n) as nat));
    } else {
        numbers_read_back(n as nat);
        assert(all_digits(decimal(n as nat)));
        assert(decimal(n as nat)[0] != '-');
    }
}

/// The daemon's program is called by its own name, in the directory that this program
/// lies in.
pub proof fn the_daemon_lies_beside(dir: Seq<char>, current: Seq<char>)
    requires
        base_name(current) is Some,
        parent_of(current) == Some(dir),
    ensures
        beside(current) == joined(dir, "tutti-server"@),
{
}

} // verus!
