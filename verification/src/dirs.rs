//! The directories that the prompts name: how what is typed becomes a path,
//! what completes it, and what a prompt starts with.

use vstd::prelude::*;
use vstd::utf8::encode_utf8;

use crate::input::push_text;
use crate::path::{
    absolute, ancestors, ancestors_of, base_name, below, components, file_name, join, joined, parent,
    parent_of, parts, strip_prefix,
};
use crate::sidebar::{shorten_home, shortened};
use crate::text::{
    after_prefix, begins, chars_of, glue, glue3, has_prefix, opt_text, range_string, same, texts,
};

verus! {

broadcast use vstd::string::group_string_axioms;

/// How many completions are shown at most.
pub const MAX_COMPLETIONS: usize = 8;

// ---- what is typed -------------------------------------------------------

/// The path that `input` names: `~` and `~/rest` from the home directory, a
/// relative path from the current one.
pub open spec fn resolved(input: Seq<char>, home: Option<Seq<char>>, cwd: Seq<char>) -> Seq<char> {
    match home {
        Some(h) => if input == "~"@ {
            h
        } else if begins(input, "~/"@) {
            joined(h, input.skip(2))
        } else {
            joined(cwd, input)
        },
        None => joined(cwd, input),
    }
}

/// The path that `input` names.
pub fn resolve_dir(input: &str, home: &Option<String>, cwd: &str) -> (r: String)
    ensures
        r@ == resolved(input@, opt_text(*home), cwd@),
{
    proof {
        reveal_strlit("~/");
    }
    match home {
        Some(h) => if same(input, "~") {
            h.clone()
        } else {
            match after_prefix(input, "~/") {
                Some(rest) => join(h.as_str(), rest.as_str()),
                None => join(cwd, input),
            }
        },
        None => join(cwd, input),
    }
}

/// Where the last component of what is typed begins: past the last slash.
pub open spec fn last_part(s: Seq<char>) -> int
    decreases s.len(),
{
    if s.len() == 0 || s.last() == '/' {
        s.len() as int
    } else {
        last_part(s.drop_last())
    }
}

fn last_part_of(cs: &Vec<char>) -> (r: usize)
    ensures
        r == last_part(cs@),
        r <= cs@.len(),
{
    let mut k: usize = cs.len();
    assert(cs@.take(k as int) == cs@);
    while k > 0 && cs[k - 1] != '/'
        invariant
            k <= cs.len(),
            last_part(cs@) == last_part(cs@.take(k as int)),
        decreases k,
    {
        assert(cs@.take(k as int).drop_last() == cs@.take(k - 1));
        k = k - 1;
    }
    k
}

/// What is typed up to its last component, and that component.
pub fn split_input(input: &str) -> (r: (String, String))
    ensures
        r.0@ == input@.take(last_part(input@)),
        r.1@ == input@.skip(last_part(input@)),
{
    let cs: Vec<char> = chars_of(input);
    let k: usize = last_part_of(&cs);
    assert(cs@.take(k as int) == cs@.subrange(0, k as int));
    assert(cs@.skip(k as int) == cs@.subrange(k as int, cs@.len() as int));
    (range_string(cs.as_slice(), 0, k), range_string(cs.as_slice(), k, cs.len()))
}

// ---- completions ---------------------------------------------------------

/// Whether `a` stands before `b` in the alphabet of character codes.
pub open spec fn text_before(a: Seq<char>, b: Seq<char>) -> bool
    decreases a.len(),
{
    if b.len() == 0 {
        false
    } else if a.len() == 0 {
        true
    } else if a[0] != b[0] {
        a[0] < b[0]
    } else {
        text_before(a.drop_first(), b.drop_first())
    }
}

fn is_before(a: &str, b: &str) -> (r: bool)
    ensures
        r == text_before(a@, b@),
{
    let x: Vec<char> = chars_of(a);
    let y: Vec<char> = chars_of(b);
    let mut i: usize = 0;
    assert(x@.skip(0) == x@);
    assert(y@.skip(0) == y@);
    while i < x.len() && i < y.len()
        invariant
            x@ == a@,
            y@ == b@,
            i <= x.len(),
            i <= y.len(),
            text_before(x@, y@) == text_before(x@.skip(i as int), y@.skip(i as int)),
        decreases x.len() - i,
    {
        assert(x@.skip(i as int).drop_first() == x@.skip(i + 1));
        assert(y@.skip(i as int).drop_first() == y@.skip(i + 1));
        if x[i] != y[i] {
            return x[i] < y[i];
        }
        i = i + 1;
    }
    i < y.len()
}

/// Whether the directory `name` completes the component `comp`: it begins with
/// it, and a hidden one is only offered where a dot was typed.
pub open spec fn completes(name: Seq<char>, comp: Seq<char>) -> bool {
    begins(name, comp) && (begins(comp, "."@) || !begins(name, "."@))
}

/// `s` with `name` before the first that it does not come after.
pub open spec fn name_placed(name: Seq<char>, s: Seq<Seq<char>>) -> Seq<Seq<char>>
    decreases s.len(),
{
    if s.len() == 0 || !text_before(s[0], name) {
        seq![name] + s
    } else {
        seq![s[0]] + name_placed(name, s.drop_first())
    }
}

/// Those of `names` that complete `comp`, in alphabetical order.
pub open spec fn completing(names: Seq<Seq<char>>, comp: Seq<char>) -> Seq<Seq<char>>
    decreases names.len(),
{
    if names.len() == 0 {
        Seq::empty()
    } else {
        let rest = completing(names.drop_last(), comp);
        if completes(names.last(), comp) {
            name_placed(names.last(), rest)
        } else {
            rest
        }
    }
}

/// The completions of `comp` that are shown: the first few.
pub open spec fn shown_completions(names: Seq<Seq<char>>, comp: Seq<char>) -> Seq<Seq<char>> {
    let all = completing(names, comp);
    if all.len() <= MAX_COMPLETIONS {
        all
    } else {
        all.take(MAX_COMPLETIONS as int)
    }
}

fn place_name(out: &mut Vec<String>, name: String)
    ensures
        texts(final(out)@) == name_placed(name@, texts(old(out)@)),
{
    let ghost s = texts(out@);
    let mut i: usize = 0;
    assert(s.take(0) + name_placed(name@, s.skip(0)) == name_placed(name@, s)) by {
        assert(s.skip(0) == s);
    }
    while i < out.len() && is_before(out[i].as_str(), name.as_str())
        invariant
            i <= out@.len(),
            s == texts(out@),
            name_placed(name@, s) == s.take(i as int) + name_placed(name@, s.skip(i as int)),
        decreases out.len() - i,
    {
        proof {
            let rest = s.skip(i as int);
            assert(rest.drop_first() == s.skip(i + 1));
            assert(s.take(i as int) + (seq![rest[0]] + name_placed(name@, s.skip(i + 1)))
                == s.take(i + 1) + name_placed(name@, s.skip(i + 1)));
        }
        i = i + 1;
    }
    let ghost n = name@;
    out.insert(i, name);
    assert(s.take(i as int) + (seq![n] + s.skip(i as int)) == texts(out@));
}

/// The completions of the component `comp` among the directories `names`.
pub fn pick_completions(names: &Vec<String>, comp: &str) -> (r: Vec<String>)
    ensures
        texts(r@) == shown_completions(texts(names@), comp@),
        r@.len() <= MAX_COMPLETIONS,
{
    let dotted: bool = has_prefix(comp, ".");
    let mut out: Vec<String> = Vec::new();
    let ghost all = texts(names@);
    assert(texts(out@) == Seq::<Seq<char>>::empty());
    for i in 0..names.len()
        invariant
            all == texts(names@),
            dotted == begins(comp@, "."@),
            texts(out@) == completing(all.take(i as int), comp@),
    {
        assert(all.take(i + 1).drop_last() == all.take(i as int));
        assert(all.take(i + 1).last() == names@[i as int]@);
        if has_prefix(names[i].as_str(), comp) && (dotted || !has_prefix(names[i].as_str(), "."))
        {
            place_name(&mut out, names[i].clone());
        }
    }
    assert(all.take(all.len() as int) == all);
    let ghost found = texts(out@);
    if out.len() > MAX_COMPLETIONS {
        out.truncate(MAX_COMPLETIONS);
        assert(texts(out@) == found.take(MAX_COMPLETIONS as int));
    }
    out
}

/// What is typed once `name` is filled in for its last component.
pub open spec fn filled(input: Seq<char>, name: Seq<char>) -> Seq<char> {
    input.take(last_part(input)) + name + "/"@
}

/// What is typed once `name` is filled in for its last component.
pub fn fill_in(input: &str, name: &str) -> (r: String)
    ensures
        r@ == filled(input@, name@),
{
    let (dir, _) = split_input(input);
    glue3(dir.as_str(), name, "/")
}

// ---- what a prompt starts with -------------------------------------------

/// How many components two lists share at their front.
pub open spec fn shared(a: Seq<Seq<char>>, b: Seq<Seq<char>>) -> nat
    decreases a.len(),
{
    if a.len() == 0 || b.len() == 0 || a[0] != b[0] {
        0
    } else {
        1 + shared(a.drop_first(), b.drop_first())
    }
}

/// The components that the first `n` of `dirs` share at their front.
pub open spec fn common_components(dirs: Seq<Seq<char>>, n: int) -> Seq<Seq<char>>
    decreases n,
{
    if n <= 1 {
        components(dirs[0])
    } else {
        let have = common_components(dirs, n - 1);
        have.take(shared(have, components(dirs[n - 1])) as int)
    }
}

/// The path made of `comps`.
pub open spec fn path_of(comps: Seq<Seq<char>>) -> Seq<char>
    decreases comps.len(),
{
    if comps.len() == 0 {
        Seq::empty()
    } else {
        joined(path_of(comps.drop_last()), comps.last())
    }
}

/// The deepest directory that holds all of `dirs`: for a single one its parent.
pub open spec fn common_dir(dirs: Seq<Seq<char>>) -> Option<Seq<char>> {
    if dirs.len() == 0 {
        None
    } else if dirs.len() == 1 {
        parent_of(dirs[0])
    } else {
        Some(path_of(common_components(dirs, dirs.len() as int)))
    }
}

fn shared_count(a: &Vec<String>, b: &Vec<String>) -> (r: usize)
    ensures
        r == shared(texts(a@), texts(b@)),
        r <= a@.len(),
{
    let ghost x = texts(a@);
    let ghost y = texts(b@);
    let mut i: usize = 0;
    assert(x.skip(0) == x);
    assert(y.skip(0) == y);
    while i < a.len() && i < b.len() && same(a[i].as_str(), b[i].as_str())
        invariant
            x == texts(a@),
            y == texts(b@),
            i <= a.len(),
            i <= b.len(),
            shared(x, y) == i + shared(x.skip(i as int), y.skip(i as int)),
        decreases a.len() - i,
    {
        assert(x.skip(i as int).drop_first() == x.skip(i + 1));
        assert(y.skip(i as int).drop_first() == y.skip(i + 1));
        i = i + 1;
    }
    assert(i < a.len() && i < b.len() ==> x.skip(i as int)[0] == a@[i as int]@ && y.skip(
        i as int,
    )[0] == b@[i as int]@);
    i
}

/// The deepest directory that holds all of `dirs`: for a single one its parent.
pub fn common_parent(dirs: &Vec<String>) -> (r: Option<String>)
    ensures
        opt_text(r) == common_dir(texts(dirs@)),
{
    let ghost d = texts(dirs@);
    if dirs.len() == 0 {
        return None;
    }
    assert(d[0] == dirs@[0]@);
    if dirs.len() == 1 {
        return parent(dirs[0].as_str());
    }
    let mut common: Vec<String> = parts(dirs[0].as_str());
    for i in 1..dirs.len()
        invariant
            d == texts(dirs@),
            texts(common@) == common_components(d, i as int),
    {
        let other: Vec<String> = parts(dirs[i].as_str());
        let k: usize = shared_count(&common, &other);
        let ghost have = texts(common@);
        assert(d[i as int] == dirs@[i as int]@);
        common.truncate(k);
        assert(texts(common@) == have.take(k as int));
    }
    let ghost comps = texts(common@);
    let mut path: String = String::new();
    for i in 0..common.len()
        invariant
            comps == texts(common@),
            path@ == path_of(comps.take(i as int)),
    {
        assert(comps.take(i + 1).drop_last() == comps.take(i as int));
        assert(comps[i as int] == common@[i as int]@);
        path = join(path.as_str(), common[i].as_str());
    }
    assert(comps.take(comps.len() as int) == comps);
    Some(path)
}

/// What the add-project prompt starts with: the directory that holds all the
/// workspaces, with the home directory written `~` and a slash at the end, or
/// `~/` where there is none below the root.
pub open spec fn prefilled(dirs: Seq<Seq<char>>, home: Option<Seq<char>>) -> Seq<char> {
    match common_dir(dirs) {
        Some(base) if parent_of(base) is Some => shortened(base, home)->0 + "/"@,
        _ => "~/"@,
    }
}

/// What the add-project prompt starts with.
pub fn prompt_prefill(dirs: &Vec<String>, home: &Option<String>) -> (r: String)
    ensures
        r@ == prefilled(texts(dirs@), opt_text(*home)),
{
    match common_parent(dirs) {
        Some(base) => {
            proof {
                crate::path::parent_is_shorter(base@);
            }
            if parent(base.as_str()).is_some() {
                match shorten_home(base.as_str(), home) {
                    Some(shown) => glue(shown.as_str(), "/"),
                    None => "~/".to_owned(),
                }
            } else {
                "~/".to_owned()
            }
        },
        None => "~/".to_owned(),
    }
}

/// Where the marks of a jj repository would lie: in the directory and those
/// above it.
pub open spec fn jj_marks(dir: Seq<char>) -> Seq<Seq<char>> {
    ancestors_of(dir).map_values(|d: Seq<char>| joined(d, ".jj"@))
}

/// The repository's root: the nearest directory whose mark was found.
pub open spec fn jj_root_of(dir: Seq<char>, found: Seq<bool>) -> Option<Seq<char>> {
    first_found(ancestors_of(dir), found)
}

/// The first of `dirs` whose flag is set.
pub open spec fn first_found(dirs: Seq<Seq<char>>, found: Seq<bool>) -> Option<Seq<char>>
    decreases dirs.len(),
{
    if dirs.len() == 0 || found.len() == 0 {
        None
    } else if found[0] {
        Some(dirs[0])
    } else {
        first_found(dirs.drop_first(), found.drop_first())
    }
}

/// Where the marks of a jj repository would lie.
pub fn jj_mark_paths(dir: &str) -> (r: Vec<String>)
    ensures
        texts(r@) == jj_marks(dir@),
{
    let dirs: Vec<String> = ancestors(dir);
    let mut out: Vec<String> = Vec::new();
    let ghost f = |d: Seq<char>| joined(d, ".jj"@);
    let ghost all = texts(dirs@);
    for i in 0..dirs.len()
        invariant
            all == texts(dirs@),
            f == (|d: Seq<char>| joined(d, ".jj"@)),
            texts(out@) == all.take(i as int).map_values(f),
    {
        let ghost have = texts(out@);
        out.push(join(dirs[i].as_str(), ".jj"));
        assert(texts(out@) == have.push(f(all[i as int])));
        assert(all.take(i + 1).map_values(f) == have.push(f(all[i as int])));
    }
    assert(all.take(all.len() as int) == all);
    out
}

/// The repository's root: the nearest directory whose mark was found.
pub fn jj_root(dir: &str, found: &Vec<bool>) -> (r: Option<String>)
    ensures
        opt_text(r) == jj_root_of(dir@, found@),
{
    let dirs: Vec<String> = ancestors(dir);
    let ghost all = texts(dirs@);
    let mut i: usize = 0;
    assert(all.skip(0) == all);
    assert(found@.skip(0) == found@);
    while i < dirs.len() && i < found.len()
        invariant
            all == texts(dirs@),
            i <= dirs.len(),
            i <= found.len(),
            first_found(all, found@) == first_found(all.skip(i as int), found@.skip(i as int)),
            all == ancestors_of(dir@),
        decreases dirs.len() - i,
    {
        assert(all.skip(i as int).drop_first() == all.skip(i + 1));
        assert(found@.skip(i as int).drop_first() == found@.skip(i + 1));
        assert(all.skip(i as int)[0] == dirs@[i as int]@);
        if found[i] {
            return Some(dirs[i].clone());
        }
        i = i + 1;
    }
    None
}

/// Whether a jj repository holds the directory.
pub fn is_jj_workspace(dir: &str, found: &Vec<bool>) -> (r: bool)
    ensures
        r == (jj_root_of(dir@, found@) is Some),
{
    jj_root(dir, found).is_some()
}

/// What the destination prompt starts with: a sibling of the repository, named
/// after it and the new workspace, with the home directory written `~`.
pub open spec fn sibling(
    dir: Seq<char>,
    root: Option<Seq<char>>,
    name: Seq<char>,
    home: Option<Seq<char>>,
) -> Seq<char> {
    let top = match root {
        Some(r) => r,
        None => dir,
    };
    let base = match base_name(top) {
        Some(b) => b,
        None => Seq::empty(),
    };
    let above = match parent_of(top) {
        Some(p) => p,
        None => top,
    };
    let dest = joined(above, base + "-"@ + name);
    match home {
        Some(h) => match below(dest, h) {
            Some(rest) => "~/"@ + rest,
            None => dest,
        },
        None => dest,
    }
}

/// What the destination prompt starts with.
pub fn sibling_dest_prefill(
    dir: &str,
    root: &Option<String>,
    name: &str,
    home: &Option<String>,
) -> (r: String)
    ensures
        r@ == sibling(dir@, opt_text(*root), name@, opt_text(*home)),
{
    let top: &str = match root {
        Some(r) => r.as_str(),
        None => dir,
    };
    let base: String = match file_name(top) {
        Some(b) => b,
        None => String::new(),
    };
    let above: String = match parent(top) {
        Some(p) => p,
        None => top.to_owned(),
    };
    let leaf: String = glue3(base.as_str(), "-", name);
    let dest: String = join(above.as_str(), leaf.as_str());
    match home {
        Some(h) => match strip_prefix(dest.as_str(), h.as_str()) {
            Some(rest) => glue("~/", rest.as_str()),
            None => dest,
        },
        None => dest,
    }
}

// ---- names and notes -----------------------------------------------------

/// The name under which a directory is opened: its last component.
pub fn workspace_name_from_dir(dir: &str) -> (r: Option<String>)
    ensures
        opt_text(r) == base_name(dir@),
{
    file_name(dir)
}

/// Whether `c` may stand in a workspace's name.
pub open spec fn name_char(c: char) -> bool {
    ('a' <= c <= 'z') || ('A' <= c <= 'Z') || ('0' <= c <= '9') || c == '-' || c == '_'
}

/// Whether `name` is a name for a workspace: letters, digits, `-` and `_`.
pub open spec fn fork_name(name: Seq<char>) -> bool {
    name.len() > 0 && forall|i: int| 0 <= i < name.len() ==> name_char(#[trigger] name[i])
}

/// Whether `name` is a name for a workspace.
pub fn is_valid_fork_name(name: &str) -> (r: bool)
    ensures
        r == fork_name(name@),
{
    let cs: Vec<char> = chars_of(name);
    if cs.len() == 0 {
        return false;
    }
    for i in 0..cs.len()
        invariant
            cs@ == name@,
            forall|j: int| 0 <= j < i ==> name_char(#[trigger] cs@[j]),
    {
        let c: char = cs[i];
        let fine: bool = ('a' <= c && c <= 'z') || ('A' <= c && c <= 'Z') || ('0' <= c && c <= '9')
            || c == '-' || c == '_';
        if !fine {
            assert(!name_char(cs@[i as int]));
            return false;
        }
    }
    true
}

/// A notification as one line: title and body, or whichever there is.
pub open spec fn note_of(title: Option<Seq<char>>, body: Option<Seq<char>>) -> Option<Seq<char>> {
    match title {
        Some(t) => match body {
            Some(b) => Some(t + ": "@ + b),
            None => Some(t),
        },
        None => body,
    }
}

/// A notification as one line, or `None` for a bare bell.
pub fn notification_text(title: Option<String>, body: Option<String>) -> (r: Option<String>)
    ensures
        opt_text(r) == note_of(opt_text(title), opt_text(body)),
{
    match title {
        Some(t) => match body {
            Some(b) => Some(glue3(t.as_str(), ": ", b.as_str())),
            None => Some(t),
        },
        None => body,
    }
}

/// The escape sequence that makes the terminal raise a notification.
pub open spec fn osc9_bytes(text: Seq<char>) -> Seq<u8> {
    seq![0x1b, 0x5d, 0x39, 0x3b] + encode_utf8(text) + seq![0x07]
}

/// The escape sequence that makes the terminal raise a notification.
pub fn osc9(text: &str) -> (r: Vec<u8>)
    ensures
        r@ == osc9_bytes(text@),
{
    let mut out: Vec<u8> = vec![0x1b, 0x5d, 0x39, 0x3b];
    push_text(&mut out, text);
    out.push(0x07);
    assert(out@ == osc9_bytes(text@));
    out
}

// ---- laws ----------------------------------------------------------------

/// Whether a list of names stands in alphabetical order.
pub open spec fn alphabetical(s: Seq<Seq<char>>) -> bool {
    forall|i: int, j: int| 0 <= i < j < s.len() ==> !text_before(s[j], s[i])
}

proof fn before_is_transitive(a: Seq<char>, b: Seq<char>, c: Seq<char>)
    requires
        !text_before(b, a),
        !text_before(c, b),
    ensures
        !text_before(c, a),
    decreases a.len(),
{
    if a.len() > 0 && c.len() > 0 && b.len() > 0 && a[0] == c[0] && a[0] == b[0] {
        before_is_transitive(a.drop_first(), b.drop_first(), c.drop_first());
    }
}

proof fn before_is_one_way(a: Seq<char>, b: Seq<char>)
    requires
        text_before(a, b),
    ensures
        !text_before(b, a),
    decreases a.len(),
{
    if a.len() > 0 && b.len() > 0 && a[0] == b[0] {
        before_is_one_way(a.drop_first(), b.drop_first());
    }
}

proof fn name_placed_is_sound(name: Seq<char>, s: Seq<Seq<char>>)
    requires
        alphabetical(s),
    ensures
        alphabetical(name_placed(name, s)),
        name_placed(name, s).len() == s.len() + 1,
        forall|x: Seq<char>| #[trigger]
            name_placed(name, s).contains(x) <==> (x == name || s.contains(x)),
    decreases s.len(),
{
    let out = name_placed(name, s);
    if s.len() == 0 || !text_before(s[0], name) {
        assert forall|i: int, j: int| 0 <= i < j < out.len() implies !text_before(
            out[j],
            out[i],
        ) by {
            if i == 0 {
                assert(out[j] == s[j - 1]);
                if j > 1 {
                    assert(!text_before(s[j - 1], s[0]));
                    before_is_transitive(name, s[0], s[j - 1]);
                }
            } else {
                assert(out[i] == s[i - 1] && out[j] == s[j - 1]);
            }
        }
        assert forall|x: Seq<char>| #[trigger] out.contains(x) <==> (x == name || s.contains(x)) by {
            if s.contains(x) {
                let k = choose|k: int| 0 <= k < s.len() && s[k] == x;
                assert(out[k + 1] == x);
            }
            if x == name {
                assert(out[0] == x);
            }
            if out.contains(x) && x != name {
                let k = choose|k: int| 0 <= k < out.len() && out[k] == x;
                assert(s[k - 1] == x);
            }
        }
    } else {
        let rest = s.drop_first();
        assert forall|i: int, j: int| 0 <= i < j < rest.len() implies !text_before(
            rest[j],
            rest[i],
        ) by {
            assert(rest[i] == s[i + 1] && rest[j] == s[j + 1]);
        }
        name_placed_is_sound(name, rest);
        let tail = name_placed(name, rest);
        assert forall|x: Seq<char>| #[trigger] out.contains(x) <==> (x == name || s.contains(x)) by {
            assert(tail.contains(x) <==> (x == name || rest.contains(x)));
            if s.contains(x) {
                let k = choose|k: int| 0 <= k < s.len() && s[k] == x;
                if k == 0 {
                    assert(out[0] == x);
                } else {
                    assert(rest[k - 1] == x);
                }
            }
            if tail.contains(x) {
                let k = choose|k: int| 0 <= k < tail.len() && tail[k] == x;
                assert(out[k + 1] == x);
            }
            if rest.contains(x) {
                let k = choose|k: int| 0 <= k < rest.len() && rest[k] == x;
                assert(s[k + 1] == x);
            }
            if out.contains(x) {
                let k = choose|k: int| 0 <= k < out.len() && out[k] == x;
                if k == 0 {
                    assert(s[0] == x);
                } else {
                    assert(tail[k - 1] == x);
                }
            }
        }
        assert forall|i: int, j: int| 0 <= i < j < out.len() implies !text_before(
            out[j],
            out[i],
        ) by {
            if i == 0 {
                assert(out[j] == tail[j - 1]);
                assert(tail.contains(tail[j - 1]));
                if tail[j - 1] == name {
                    before_is_one_way(s[0], name);
                } else {
                    let k = choose|k: int| 0 <= k < rest.len() && rest[k] == tail[j - 1];
                    assert(s[k + 1] == out[j]);
                }
            } else {
                assert(out[i] == tail[i - 1] && out[j] == tail[j - 1]);
            }
        }
    }
}

/// The completions are exactly the directories that complete what is typed, in
/// alphabetical order.
pub proof fn completions_are_exact(names: Seq<Seq<char>>, comp: Seq<char>)
    ensures
        alphabetical(completing(names, comp)),
        forall|x: Seq<char>| #[trigger]
            completing(names, comp).contains(x) <==> (names.contains(x) && completes(x, comp)),
    decreases names.len(),
{
    if names.len() > 0 {
        let rest = names.drop_last();
        completions_are_exact(rest, comp);
        if completes(names.last(), comp) {
            name_placed_is_sound(names.last(), completing(rest, comp));
        }
        assert forall|x: Seq<char>| #[trigger] completing(names, comp).contains(x) <==> (
        names.contains(x) && completes(x, comp)) by {
            assert(completing(rest, comp).contains(x) <==> (rest.contains(x) && completes(
                x,
                comp,
            )));
            if names.contains(x) {
                let k = choose|k: int| 0 <= k < names.len() && names[k] == x;
                if k < names.len() - 1 {
                    assert(rest[k] == x);
                }
            }
            if rest.contains(x) {
                let k = choose|k: int| 0 <= k < rest.len() && rest[k] == x;
                assert(names[k] == x);
            }
            if x == names.last() {
                assert(names[names.len() - 1] == x);
            }
        }
    }
}

/// An absolute path names itself, whatever the home and current directories.
pub proof fn absolute_paths_stay(input: Seq<char>, home: Option<Seq<char>>, cwd: Seq<char>)
    requires
        crate::path::absolute(input),
    ensures
        resolved(input, home, cwd) == input,
{
    reveal_strlit("~");
    reveal_strlit("~/");
    assert(input[0] != "~"@[0]);
    if begins(input, "~/"@) {
        assert(input.take(2)[0] == "~/"@[0]);
    }
}

proof fn common_dir_is_absolute(dirs: Seq<Seq<char>>)
    requires
        forall|i: int| 0 <= i < dirs.len() ==> absolute(#[trigger] dirs[i]),
        common_dir(dirs) is Some,
    ensures
        absolute(common_dir(dirs)->0),
{
    if dirs.len() == 1 {
        assert(absolute(dirs[0]));
        crate::path::parent_stays_absolute(dirs[0]);
    } else {
        common_components_start_at_root(dirs, dirs.len() as int);
        path_starts_at_root(common_components(dirs, dirs.len() as int));
    }
}

proof fn common_components_start_at_root(dirs: Seq<Seq<char>>, n: int)
    requires
        1 <= n <= dirs.len(),
        forall|i: int| 0 <= i < dirs.len() ==> absolute(#[trigger] dirs[i]),
    ensures
        common_components(dirs, n).len() >= 1,
        common_components(dirs, n)[0] == seq!['/'],
    decreases n,
{
    assert(absolute(dirs[0]) && absolute(dirs[n - 1]));
    if n > 1 {
        common_components_start_at_root(dirs, n - 1);
        let have = common_components(dirs, n - 1);
        let other = components(dirs[n - 1]);
        assert(other[0] == seq!['/']);
        assert(shared(have, other) >= 1);
        shared_bounds(have, other);
    }
}

proof fn shared_bounds(a: Seq<Seq<char>>, b: Seq<Seq<char>>)
    ensures
        shared(a, b) <= a.len(),
    decreases a.len(),
{
    if a.len() > 0 && b.len() > 0 && a[0] == b[0] {
        shared_bounds(a.drop_first(), b.drop_first());
    }
}

proof fn path_starts_at_root(comps: Seq<Seq<char>>)
    requires
        comps.len() >= 1,
        comps[0] == seq!['/'],
    ensures
        absolute(path_of(comps)),
    decreases comps.len(),
{
    if comps.len() > 1 {
        assert(comps.drop_last()[0] == comps[0]);
        path_starts_at_root(comps.drop_last());
    } else {
        assert(comps.last() == seq!['/']);
    }
}

/// What the add-project prompt starts with, entered as it stands, names the
/// directory that holds all the workspaces, wherever the client runs; and it ends
/// in a slash, so that typing goes on below it.
pub proof fn prefill_names_the_common_directory(
    dirs: Seq<Seq<char>>,
    home: Seq<char>,
    cwd: Seq<char>,
)
    requires
        absolute(home),
        forall|i: int| 0 <= i < dirs.len() ==> absolute(#[trigger] dirs[i]),
        common_dir(dirs) is Some,
        parent_of(common_dir(dirs)->0) is Some,
    ensures
        prefilled(dirs, Some(home)).last() == '/',
        components(resolved(prefilled(dirs, Some(home)), Some(home), cwd)) == components(
            common_dir(dirs)->0,
        ),
{
    reveal_strlit("/");
    reveal_strlit("~");
    reveal_strlit("~/");
    common_dir_is_absolute(dirs);
    let base = common_dir(dirs)->0;
    let typed = prefilled(dirs, Some(home));
    match below(base, home) {
        Some(rest) => {
            crate::path::below_leads_back(base, home);
            let tail = typed.skip(2);
            assert(begins(typed, "~/"@)) by {
                assert(typed.take(2) =~= "~/"@);
            }
            assert(typed.len() >= 2);
            assert(typed != "~"@);
            if rest.len() == 0 {
                assert(tail =~= rest);
            } else {
                assert(tail =~= rest.push('/'));
                assert(joined(home, tail) =~= joined(home, rest).push('/'));
                crate::path::slash_adds_nothing(joined(home, rest), 1);
            }
        },
        None => {
            assert(typed =~= base.push('/'));
            assert(typed.len() >= 2 ==> typed.take(2)[0] == '/');
            crate::path::slash_adds_nothing(base, 1);
        },
    }
}

/// A directory that is shown with `~` for the home directory, entered as it is shown,
/// names the directory again, wherever the client runs.
pub proof fn shown_directories_resolve(dir: Seq<char>, home: Seq<char>, cwd: Seq<char>)
    requires
        absolute(dir),
        absolute(home),
    ensures
        shortened(dir, Some(home)) is Some,
        components(resolved(shortened(dir, Some(home))->0, Some(home), cwd)) == components(dir),
{
    reveal_strlit("~");
    reveal_strlit("~/");
    let shown = shortened(dir, Some(home))->0;
    match below(dir, home) {
        Some(rest) => {
            crate::path::below_leads_back(dir, home);
            if rest.len() == 0 {
                assert(joined(home, rest) =~= if home.last() == '/' {
                    home
                } else {
                    home.push('/')
                });
                crate::path::slash_adds_nothing(home, 1);
            } else {
                assert(shown.take(2) =~= "~/"@);
                assert(shown.skip(2) =~= rest);
            }
        },
        None => {
            assert(shown.len() >= 2 ==> shown.take(2)[0] == '/');
        },
    }
}

/// What is typed names what it says: `~` the home directory, what begins at the root
/// itself, and anything else a place below the current directory.
pub proof fn typed_paths_name_what_they_say(
    input: Seq<char>,
    home: Seq<char>,
    cwd: Seq<char>,
    rest: Seq<char>,
)
    requires
        !absolute(rest),
    ensures
        resolved("~"@, Some(home), cwd) == home,
        resolved("~/"@ + rest, Some(home), cwd) == joined(home, rest),
        absolute(input) ==> resolved(input, Some(home), cwd) == input,
        !absolute(input) && !begins(input, "~"@) ==> resolved(input, Some(home), cwd) == joined(
            cwd,
            input,
        ),
{
    reveal_strlit("~");
    reveal_strlit("~/");
    let typed = "~/"@ + rest;
    assert(typed.take(2) =~= "~/"@);
    assert(typed.skip(2) =~= rest);
    assert(typed.len() >= 2);
    if begins(input, "~/"@) {
        assert(input.take(2)[0] == '~');
        assert(input.take(1) =~= "~"@);
    }
    if input == "~"@ {
        assert(input.take(1) =~= "~"@);
    }
}

/// The directory that holds all workspaces is the longest that they share: each of
/// them has its components at its front.
pub proof fn common_components_are_shared(dirs: Seq<Seq<char>>, n: int, i: int)
    requires
        0 <= i < n <= dirs.len(),
    ensures
        common_components(dirs, n).is_prefix_of(components(dirs[i])),
    decreases n,
{
    if n > 1 {
        let have = common_components(dirs, n - 1);
        let other = components(dirs[n - 1]);
        let k = shared(have, other) as int;
        shared_is_common(have, other);
        if i < n - 1 {
            common_components_are_shared(dirs, n - 1, i);
            assert(have.take(k).is_prefix_of(components(dirs[i]))) by {
                assert(components(dirs[i]).take(k) =~= have.take(k));
            }
        }
    }
}

proof fn shared_is_common(a: Seq<Seq<char>>, b: Seq<Seq<char>>)
    ensures
        shared(a, b) <= a.len(),
        shared(a, b) <= b.len(),
        a.take(shared(a, b) as int) =~= b.take(shared(a, b) as int),
        shared(a, b) < a.len() && shared(a, b) < b.len() ==> a[shared(a, b) as int]
            != b[shared(a, b) as int],
    decreases a.len(),
{
    if a.len() > 0 && b.len() > 0 && a[0] == b[0] {
        let (x, y) = (a.drop_first(), b.drop_first());
        shared_is_common(x, y);
        let k = shared(x, y) as int;
        assert forall|i: int| 0 <= i < k + 1 implies a[i] == b[i] by {
            if i > 0 {
                assert(x.take(k)[i - 1] == y.take(k)[i - 1]);
            }
        }
        assert(a.take(k + 1) =~= b.take(k + 1));
    }
}

/// The root of a repository is the nearest directory, from the one asked about upwards,
/// whose mark was found.
pub proof fn the_nearest_root_counts(dirs: Seq<Seq<char>>, found: Seq<bool>, i: int)
    requires
        0 <= i < dirs.len(),
        i < found.len(),
        found[i],
        forall|j: int| 0 <= j < i ==> !#[trigger] found[j],
    ensures
        first_found(dirs, found) == Some(dirs[i]),
    decreases dirs.len(),
{
    if i > 0 {
        assert(!found[0]);
        assert forall|j: int| 0 <= j < i - 1 implies !#[trigger] found.drop_first()[j] by {
            assert(!found[j + 1]);
        }
        the_nearest_root_counts(dirs.drop_first(), found.drop_first(), i - 1);
    }
}

/// A name for a workspace holds only letters, digits, `-` and `_`, and is not empty;
/// a slash, a dot or white space never stands in one.
pub proof fn names_are_plain(name: Seq<char>)
    ensures
        fork_name(name) ==> name.len() > 0 && !name.contains('/') && !name.contains('.')
            && !name.contains(' '),
        name.len() == 0 ==> !fork_name(name),
        fork_name(name) ==> forall|i: int|
            0 <= i < name.len() ==> (#[trigger] name[i]) == '-' || name[i] == '_' || ('0' <= name[i]
                <= '9') || ('a' <= name[i] <= 'z') || ('A' <= name[i] <= 'Z'),
{
    if fork_name(name) {
        assert forall|i: int| 0 <= i < name.len() implies name_char(#[trigger] name[i]) by {}
        if name.contains('/') {
            let i = choose|i: int| 0 <= i < name.len() && name[i] == '/';
            assert(name_char(name[i]));
        }
        if name.contains('.') {
            let i = choose|i: int| 0 <= i < name.len() && name[i] == '.';
            assert(name_char(name[i]));
        }
        if name.contains(' ') {
            let i = choose|i: int| 0 <= i < name.len() && name[i] == ' ';
            assert(name_char(name[i]));
        }
    }
}

/// A completion is offered where it goes on from what was typed; a hidden directory
/// only where a dot was typed.
pub proof fn completions_go_on_from_what_is_typed(name: Seq<char>, comp: Seq<char>)
    ensures
        completes(name, comp) ==> comp.len() <= name.len() && name.take(comp.len() as int) == comp,
        completes(name, comp) && name.len() > 0 && name[0] == '.' ==> comp.len() > 0 && comp[0]
            == '.',
        comp.len() == 0 && name.len() > 0 && name[0] != '.' ==> completes(name, comp),
{
    reveal_strlit(".");
    if completes(name, comp) && name.len() > 0 && name[0] == '.' {
        assert(name.take(1) =~= "."@);
        if begins(comp, "."@) {
            assert(comp.take(1)[0] == '.');
        }
    }
    if comp.len() == 0 && name.len() > 0 && name[0] != '.' {
        assert(name.take(0) =~= comp);
        assert(name.take(1)[0] != "."@[0]);
    }
}

/// A notification is told in one line, title before body; with one of them that one is
/// told, and with neither nothing.
pub proof fn notes_tell_both(title: Seq<char>, body: Seq<char>)
    ensures
        note_of(Some(title), Some(body)) == Some(title + ": "@ + body),
        note_of(Some(title), None) == Some(title),
        note_of(None, Some(body)) == Some(body),
        note_of(None, None) is None,
{
}

/// A notification goes to the terminal between the marks that make it one, and its
/// text as it is.
pub proof fn notifications_carry_their_text(text: Seq<char>)
    ensures
        osc9_bytes(text).take(4) == seq![0x1bu8, 0x5du8, 0x39u8, 0x3bu8],
        osc9_bytes(text).last() == 0x07u8,
        osc9_bytes(text).subrange(4, osc9_bytes(text).len() - 1) == encode_utf8(text),
{
    let b = osc9_bytes(text);
    assert(b.take(4) =~= seq![0x1bu8, 0x5du8, 0x39u8, 0x3bu8]);
    assert(b.subrange(4, b.len() - 1) =~= encode_utf8(text));
}

/// A new workspace is proposed beside the repository it is forked from, under the
/// repository's name and its own.
pub proof fn siblings_lie_beside_the_repository(
    dir: Seq<char>,
    root: Seq<char>,
    name: Seq<char>,
)
    requires
        base_name(root) is Some,
        parent_of(root) is Some,
        base_name(dir) is Some,
        parent_of(dir) is Some,
    ensures
        sibling(dir, Some(root), name, None) == joined(
            parent_of(root)->0,
            base_name(root)->0 + "-"@ + name,
        ),
        sibling(dir, None, name, None) == joined(
            parent_of(dir)->0,
            base_name(dir)->0 + "-"@ + name,
        ),
{
}

/// Filling a completion in replaces the last part of what is typed and keeps the rest.
pub proof fn filling_in_keeps_the_front(dir: Seq<char>, part: Seq<char>, name: Seq<char>)
    requires
        dir.len() > 0 ==> dir.last() == '/',
        !part.contains('/'),
    ensures
        filled(dir + part, name) == dir + name + "/"@,
{
    last_part_found(dir, part);
    assert((dir + part).take(dir.len() as int) =~= dir);
}

proof fn last_part_found(dir: Seq<char>, part: Seq<char>)
    requires
        dir.len() > 0 ==> dir.last() == '/',
        !part.contains('/'),
    ensures
        last_part(dir + part) == dir.len(),
    decreases part.len(),
{
    if part.len() > 0 {
        assert((dir + part).drop_last() =~= dir + part.drop_last());
        assert((dir + part).last() == part.last());
        assert(part.contains(part[part.len() - 1]));
        assert(!part.drop_last().contains('/')) by {
            if part.drop_last().contains('/') {
                let i = choose|i: int| 0 <= i < part.len() - 1 && part.drop_last()[i] == '/';
                assert(part[i] == '/');
            }
        }
        last_part_found(dir, part.drop_last());
    } else {
        assert(dir + part =~= dir);
    }
}

} // verus!
