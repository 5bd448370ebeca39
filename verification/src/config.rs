//! The configuration: the prefix chord, the mouse switch, the direct key
//! bindings, the prefix keymap, what the sidebar shows, and the startup
//! projects. A malformed file, an unknown key, or a chord that cannot be read
//! is an error that names the entry; nothing is silently ignored.

use vstd::prelude::*;

use crate::key::{key_label, label_of, KeyCode, KeyEvent, KeyModifiers};
use crate::path::{join, joined};
use crate::text::{
    after_prefix, begins, chars_of, glue, glue3, is_control, opt_str, opt_text, same, texts,
};

verus! {

broadcast use vstd::string::group_string_axioms;

/// How far one press of a resize key moves a split, in hundredths of its axis.
pub const RESIZE_DELTA: i32 = 5;

/// What a direct binding does when its chord is pressed in terminal mode.
#[derive(Debug, Clone, Copy, PartialEq, Eq, Structural)]
pub enum Action {
    FocusLeft,
    FocusDown,
    FocusUp,
    FocusRight,
    ResizeLeft,
    ResizeDown,
    ResizeUp,
    ResizeRight,
    KillPane,
}

/// What the key after the prefix chord does.
#[derive(Debug, Clone, Copy, PartialEq, Eq, Structural)]
pub enum PrefixAction {
    SplitRight,
    SplitDown,
    FocusLeft,
    FocusDown,
    FocusUp,
    FocusRight,
    FocusCycle,
    KillPane,
    Zoom,
    Scrollback,
    TabNext,
    TabPrev,
    TabNew,
    Sidebar,
    Run,
    MouseToggle,
    Detach,
    Help,
}

/// Whether the sidebar is shown. `Auto` shows it once there is more than one
/// workspace or any agent; `Off` hides it until it is focused.
#[derive(Debug, Clone, Copy, PartialEq, Eq, Structural)]
pub enum SidebarVisibility {
    Auto,
    On,
    Off,
}

/// The sidebar's glyph set.
#[derive(Debug, Clone, Copy, PartialEq, Eq, Structural)]
pub enum Icons {
    Unicode,
    Nerdfont,
}

/// The preset that selects the prefix keymap.
#[derive(Debug, Clone, Copy, PartialEq, Eq, Structural)]
pub enum Preset {
    Default,
    Vim,
}

/// One prefix binding: the key, its action, and a short description.
#[derive(Debug, Clone, Copy)]
pub struct PrefixBinding {
    pub key: KeyCode,
    pub action: PrefixAction,
    pub desc: &'static str,
}

/// What a prefix binding says.
pub struct BindingLine {
    pub key: KeyCode,
    pub action: PrefixAction,
    pub desc: Seq<char>,
}

impl View for PrefixBinding {
    type V = BindingLine;

    open spec fn view(&self) -> BindingLine {
        BindingLine { key: self.key, action: self.action, desc: self.desc@ }
    }
}

/// What a list of prefix bindings says.
pub open spec fn binding_lines(s: Seq<PrefixBinding>) -> Seq<BindingLine> {
    s.map_values(|b: PrefixBinding| b@)
}

/// A binding, written as one value.
pub open spec fn bound(key: KeyCode, action: PrefixAction, desc: Seq<char>) -> BindingLine {
    BindingLine { key, action, desc }
}

/// The keymap of a preset, in the order in which it is shown.
pub open spec fn keymap(preset: Preset) -> Seq<BindingLine> {
    match preset {
        Preset::Default => seq![
            bound(KeyCode::Char('%'), PrefixAction::SplitRight, "split right"@),
            bound(KeyCode::Char('"'), PrefixAction::SplitDown, "split below"@),
            bound(KeyCode::Char('x'), PrefixAction::KillPane, "kill pane"@),
            bound(KeyCode::Char('z'), PrefixAction::Zoom, "zoom pane"@),
            bound(KeyCode::Char('['), PrefixAction::Scrollback, "scrollback"@),
            bound(KeyCode::Char('n'), PrefixAction::TabNext, "next tab"@),
            bound(KeyCode::Char('p'), PrefixAction::TabPrev, "prev tab"@),
            bound(KeyCode::Char('c'), PrefixAction::TabNew, "new tab"@),
            bound(KeyCode::Char('w'), PrefixAction::Sidebar, "workspaces"@),
            bound(KeyCode::Char('r'), PrefixAction::Run, "run"@),
            bound(KeyCode::Char('o'), PrefixAction::FocusCycle, "focus next pane"@),
            bound(KeyCode::Left, PrefixAction::FocusLeft, "focus left"@),
            bound(KeyCode::Down, PrefixAction::FocusDown, "focus down"@),
            bound(KeyCode::Up, PrefixAction::FocusUp, "focus up"@),
            bound(KeyCode::Right, PrefixAction::FocusRight, "focus right"@),
            bound(KeyCode::Char('m'), PrefixAction::MouseToggle, "toggle mouse"@),
            bound(KeyCode::Char('q'), PrefixAction::Detach, "detach"@),
            bound(KeyCode::Char('d'), PrefixAction::Detach, "detach"@),
            bound(KeyCode::Char('?'), PrefixAction::Help, "help"@),
        ],
        Preset::Vim => seq![
            bound(KeyCode::Char('v'), PrefixAction::SplitRight, "split right"@),
            bound(KeyCode::Char('s'), PrefixAction::SplitDown, "split below"@),
            bound(KeyCode::Char('h'), PrefixAction::FocusLeft, "focus left"@),
            bound(KeyCode::Char('j'), PrefixAction::FocusDown, "focus down"@),
            bound(KeyCode::Char('k'), PrefixAction::FocusUp, "focus up"@),
            bound(KeyCode::Char('l'), PrefixAction::FocusRight, "focus right"@),
            bound(KeyCode::Char('q'), PrefixAction::KillPane, "kill pane"@),
            bound(KeyCode::Char('d'), PrefixAction::Detach, "detach"@),
            bound(KeyCode::Char('t'), PrefixAction::TabNew, "new tab"@),
            bound(KeyCode::Char('n'), PrefixAction::TabNext, "next tab"@),
            bound(KeyCode::Char('p'), PrefixAction::TabPrev, "prev tab"@),
            bound(KeyCode::Char('w'), PrefixAction::Sidebar, "workspaces"@),
            bound(KeyCode::Char('r'), PrefixAction::Run, "run"@),
            bound(KeyCode::Char('z'), PrefixAction::Zoom, "zoom pane"@),
            bound(KeyCode::Char('['), PrefixAction::Scrollback, "scrollback"@),
            bound(KeyCode::Char('m'), PrefixAction::MouseToggle, "toggle mouse"@),
            bound(KeyCode::Char('?'), PrefixAction::Help, "help"@),
        ],
    }
}

fn b(key: KeyCode, action: PrefixAction, desc: &'static str) -> (r: PrefixBinding)
    ensures
        r@ == bound(key, action, desc@),
{
    PrefixBinding { key, action, desc }
}

fn prefix_table(preset: Preset) -> (r: Vec<PrefixBinding>)
    ensures
        binding_lines(r@) == keymap(preset),
{
    let table: Vec<PrefixBinding> = match preset {
        Preset::Default => vec![
            b(KeyCode::Char('%'), PrefixAction::SplitRight, "split right"),
            b(KeyCode::Char('"'), PrefixAction::SplitDown, "split below"),
            b(KeyCode::Char('x'), PrefixAction::KillPane, "kill pane"),
            b(KeyCode::Char('z'), PrefixAction::Zoom, "zoom pane"),
            b(KeyCode::Char('['), PrefixAction::Scrollback, "scrollback"),
            b(KeyCode::Char('n'), PrefixAction::TabNext, "next tab"),
            b(KeyCode::Char('p'), PrefixAction::TabPrev, "prev tab"),
            b(KeyCode::Char('c'), PrefixAction::TabNew, "new tab"),
            b(KeyCode::Char('w'), PrefixAction::Sidebar, "workspaces"),
            b(KeyCode::Char('r'), PrefixAction::Run, "run"),
            b(KeyCode::Char('o'), PrefixAction::FocusCycle, "focus next pane"),
            b(KeyCode::Left, PrefixAction::FocusLeft, "focus left"),
            b(KeyCode::Down, PrefixAction::FocusDown, "focus down"),
            b(KeyCode::Up, PrefixAction::FocusUp, "focus up"),
            b(KeyCode::Right, PrefixAction::FocusRight, "focus right"),
            b(KeyCode::Char('m'), PrefixAction::MouseToggle, "toggle mouse"),
            b(KeyCode::Char('q'), PrefixAction::Detach, "detach"),
            b(KeyCode::Char('d'), PrefixAction::Detach, "detach"),
            b(KeyCode::Char('?'), PrefixAction::Help, "help"),
        ],
        Preset::Vim => vec![
            b(KeyCode::Char('v'), PrefixAction::SplitRight, "split right"),
            b(KeyCode::Char('s'), PrefixAction::SplitDown, "split below"),
            b(KeyCode::Char('h'), PrefixAction::FocusLeft, "focus left"),
            b(KeyCode::Char('j'), PrefixAction::FocusDown, "focus down"),
            b(KeyCode::Char('k'), PrefixAction::FocusUp, "focus up"),
            b(KeyCode::Char('l'), PrefixAction::FocusRight, "focus right"),
            b(KeyCode::Char('q'), PrefixAction::KillPane, "kill pane"),
            b(KeyCode::Char('d'), PrefixAction::Detach, "detach"),
            b(KeyCode::Char('t'), PrefixAction::TabNew, "new tab"),
            b(KeyCode::Char('n'), PrefixAction::TabNext, "next tab"),
            b(KeyCode::Char('p'), PrefixAction::TabPrev, "prev tab"),
            b(KeyCode::Char('w'), PrefixAction::Sidebar, "workspaces"),
            b(KeyCode::Char('r'), PrefixAction::Run, "run"),
            b(KeyCode::Char('z'), PrefixAction::Zoom, "zoom pane"),
            b(KeyCode::Char('['), PrefixAction::Scrollback, "scrollback"),
            b(KeyCode::Char('m'), PrefixAction::MouseToggle, "toggle mouse"),
            b(KeyCode::Char('?'), PrefixAction::Help, "help"),
        ],
    };
    assert(binding_lines(table@) == keymap(preset));
    table
}

// ---- what can be wrong ---------------------------------------------------

/// What is wrong with a configuration.
#[derive(Debug, Clone, PartialEq)]
pub enum ConfigError {
    /// The text is no TOML document; what the reader says of it.
    Syntax(String),
    /// A key that means nothing.
    UnknownKey(String),
    /// A key whose value is of the wrong kind.
    WrongType(String),
    /// A project without a directory.
    MissingDir,
    /// A text that is no chord.
    BadChord(String),
    /// An entry whose value is no chord.
    Invalid { entry: String, value: String },
    /// An entry whose value is none of those it can have.
    UnknownValue { entry: String, value: String },
}

/// What is wrong with a configuration, over texts.
pub enum Fault {
    Syntax(Seq<char>),
    UnknownKey(Seq<char>),
    WrongType(Seq<char>),
    MissingDir,
    BadChord(Seq<char>),
    Invalid { entry: Seq<char>, value: Seq<char> },
    UnknownValue { entry: Seq<char>, value: Seq<char> },
}

impl View for ConfigError {
    type V = Fault;

    open spec fn view(&self) -> Fault {
        match self {
            ConfigError::Syntax(s) => Fault::Syntax(s@),
            ConfigError::UnknownKey(s) => Fault::UnknownKey(s@),
            ConfigError::WrongType(s) => Fault::WrongType(s@),
            ConfigError::MissingDir => Fault::MissingDir,
            ConfigError::BadChord(s) => Fault::BadChord(s@),
            ConfigError::Invalid { entry, value } => Fault::Invalid {
                entry: entry@,
                value: value@,
            },
            ConfigError::UnknownValue { entry, value } => Fault::UnknownValue {
                entry: entry@,
                value: value@,
            },
        }
    }
}

/// The text that `{:?}` writes of a string.
pub uninterp spec fn quoted(s: Seq<char>) -> Seq<char>;

/// The `Debug` form of a string, as `format!` with `{:?}` writes it: decided by
/// the string alone.
#[verifier::external_body]
pub(crate) fn quote(s: &str) -> (r: String)
    ensures
        r@ == quoted(s@),
{
    format!("{s:?}")
}

/// The values that an entry can have, for the message.
pub open spec fn expected_values(entry: Seq<char>) -> Seq<char> {
    if entry == "preset"@ {
        "\"default\" or \"vim\""@
    } else if entry == "sidebar"@ {
        "\"auto\", \"on\", or \"off\""@
    } else {
        "\"unicode\" or \"nerdfont\""@
    }
}

/// The message of a fault.
pub open spec fn fault_message(f: Fault) -> Seq<char> {
    match f {
        Fault::Syntax(s) => s,
        Fault::UnknownKey(k) => "unknown key: "@ + k,
        Fault::WrongType(k) => k + ": wrong type of value"@,
        Fault::MissingDir => "projects: missing key: dir"@,
        Fault::BadChord(s) => "invalid key chord "@ + quoted(s),
        Fault::Invalid { entry, value } => entry + ": invalid value "@ + quoted(value),
        Fault::UnknownValue { entry, value } => entry + ": unknown value "@ + quoted(value)
            + " (expected "@ + expected_values(entry) + ")"@,
    }
}

impl ConfigError {
    /// The message, which names the entry.
    pub fn message(&self) -> (r: String)
        ensures
            r@ == fault_message(self@),
    {
        match self {
            ConfigError::Syntax(s) => s.clone(),
            ConfigError::UnknownKey(k) => glue("unknown key: ", k.as_str()),
            ConfigError::WrongType(k) => glue(k.as_str(), ": wrong type of value"),
            ConfigError::MissingDir => "projects: missing key: dir".to_owned(),
            ConfigError::BadChord(s) => glue("invalid key chord ", quote(s.as_str()).as_str()),
            ConfigError::Invalid { entry, value } => glue3(
                entry.as_str(),
                ": invalid value ",
                quote(value.as_str()).as_str(),
            ),
            ConfigError::UnknownValue { entry, value } => {
                let expected: &str = if same(entry.as_str(), "preset") {
                    "\"default\" or \"vim\""
                } else if same(entry.as_str(), "sidebar") {
                    "\"auto\", \"on\", or \"off\""
                } else {
                    "\"unicode\" or \"nerdfont\""
                };
                let mut out: String = glue3(
                    entry.as_str(),
                    ": unknown value ",
                    quote(value.as_str()).as_str(),
                );
                out.append(" (expected ");
                out.append(expected);
                out.append(")");
                out
            },
        }
    }
}

// ---- chords --------------------------------------------------------------

/// A key with Ctrl or Alt.
#[derive(Debug, Clone, Copy, PartialEq, Eq, Structural)]
pub struct Chord {
    pub code: KeyCode,
    pub mods: KeyModifiers,
}

/// The chord that `spec` writes: `C-<char>`, `A-<char>`, or one character that
/// is no control character.
pub open spec fn chord_of(spec: Seq<char>) -> Option<Chord> {
    let control = begins(spec, "C-"@);
    let alt = !control && begins(spec, "A-"@);
    let rest = if control || alt {
        spec.skip(2)
    } else {
        spec
    };
    if rest.len() == 1 && !crate::text::control(rest[0]) {
        Some(
            Chord {
                code: KeyCode::Char(rest[0]),
                mods: KeyModifiers { shift: false, control, alt, other: false },
            },
        )
    } else {
        None
    }
}

impl Chord {
    /// Read `C-<char>` (Ctrl), `A-<char>` (Alt), or a printable character.
    pub fn parse(spec: &str) -> (r: Result<Chord, ConfigError>)
        ensures
            match chord_of(spec@) {
                Some(chord) => r matches Ok(c) && c == chord,
                None => r matches Err(e) && e@ == Fault::BadChord(spec@),
            },
    {
        proof {
            reveal_strlit("C-");
            reveal_strlit("A-");
        }
        let (mods, rest): (KeyModifiers, Vec<char>) = match after_prefix(spec, "C-") {
            Some(rest) => (KeyModifiers::control(), chars_of(rest.as_str())),
            None => match after_prefix(spec, "A-") {
                Some(rest) => (KeyModifiers::alt(), chars_of(rest.as_str())),
                None => (KeyModifiers::none(), chars_of(spec)),
            },
        };
        if rest.len() == 1 && !is_control(rest[0]) {
            Ok(Chord { code: KeyCode::Char(rest[0]), mods })
        } else {
            Err(ConfigError::BadChord(spec.to_owned()))
        }
    }

    /// Whether `key` is this chord: the same key, with Ctrl and Alt exactly as
    /// in the chord. Shift rides along with the character.
    pub open spec fn is_pressed(&self, key: KeyEvent) -> bool {
        self.code == key.code && self.mods.control == key.modifiers.control && self.mods.alt
            == key.modifiers.alt
    }

    /// Whether `key` is this chord.
    pub fn matches(&self, key: KeyEvent) -> (r: bool)
        ensures
            r == self.is_pressed(key),
    {
        self.code == key.code && self.mods.control == key.modifiers.control && self.mods.alt
            == key.modifiers.alt
    }

    /// A short human label, such as `C-b`, `A-x` or `%`.
    pub open spec fn shown(&self) -> Seq<char> {
        if self.mods.control {
            "C-"@ + label_of(self.code)
        } else if self.mods.alt {
            "A-"@ + label_of(self.code)
        } else {
            label_of(self.code)
        }
    }

    /// A short human label, such as `C-b`, `A-x` or `%`.
    pub fn label(&self) -> (r: String)
        ensures
            r@ == self.shown(),
    {
        let base: String = key_label(self.code);
        if self.mods.control {
            glue("C-", base.as_str())
        } else if self.mods.alt {
            glue("A-", base.as_str())
        } else {
            base
        }
    }
}

// ---- direct bindings -----------------------------------------------------

/// How many direct bindings there are.
pub const DIRECT: usize = 9;

/// The action of the `i`th direct binding.
pub open spec fn action_at(i: int) -> Action {
    if i == 0 {
        Action::FocusLeft
    } else if i == 1 {
        Action::FocusDown
    } else if i == 2 {
        Action::FocusUp
    } else if i == 3 {
        Action::FocusRight
    } else if i == 4 {
        Action::ResizeLeft
    } else if i == 5 {
        Action::ResizeDown
    } else if i == 6 {
        Action::ResizeUp
    } else if i == 7 {
        Action::ResizeRight
    } else {
        Action::KillPane
    }
}

/// The name of the `i`th direct binding's entry.
pub open spec fn entry_at(i: int) -> Seq<char> {
    if i == 0 {
        "focus_left"@
    } else if i == 1 {
        "focus_down"@
    } else if i == 2 {
        "focus_up"@
    } else if i == 3 {
        "focus_right"@
    } else if i == 4 {
        "resize_left"@
    } else if i == 5 {
        "resize_down"@
    } else if i == 6 {
        "resize_up"@
    } else if i == 7 {
        "resize_right"@
    } else {
        "kill_pane"@
    }
}

/// The chord of the `i`th direct binding where the file says nothing.
pub open spec fn default_at(i: int) -> Seq<char> {
    if i == 0 {
        "C-h"@
    } else if i == 1 {
        "C-j"@
    } else if i == 2 {
        "C-k"@
    } else if i == 3 {
        "C-l"@
    } else if i == 4 {
        "A-h"@
    } else if i == 5 {
        "A-j"@
    } else if i == 6 {
        "A-k"@
    } else if i == 7 {
        "A-l"@
    } else {
        "A-x"@
    }
}

fn direct_entry(i: usize) -> (r: (Action, &'static str, &'static str))
    requires
        i < DIRECT,
    ensures
        r.0 == action_at(i as int),
        r.1@ == entry_at(i as int),
        r.2@ == default_at(i as int),
{
    match i {
        0 => (Action::FocusLeft, "focus_left", "C-h"),
        1 => (Action::FocusDown, "focus_down", "C-j"),
        2 => (Action::FocusUp, "focus_up", "C-k"),
        3 => (Action::FocusRight, "focus_right", "C-l"),
        4 => (Action::ResizeLeft, "resize_left", "A-h"),
        5 => (Action::ResizeDown, "resize_down", "A-j"),
        6 => (Action::ResizeUp, "resize_up", "A-k"),
        7 => (Action::ResizeRight, "resize_right", "A-l"),
        _ => (Action::KillPane, "kill_pane", "A-x"),
    }
}

/// The chords that are enabled, each with its action.
#[derive(Debug, Clone)]
pub struct Keys {
    pub bindings: Vec<(Chord, Action)>,
}

/// The action of the first of `bindings` whose chord is `key`.
pub open spec fn first_action(bindings: Seq<(Chord, Action)>, key: KeyEvent) -> Option<Action>
    decreases bindings.len(),
{
    if bindings.len() == 0 {
        None
    } else if bindings[0].0.is_pressed(key) {
        Some(bindings[0].1)
    } else {
        first_action(bindings.drop_first(), key)
    }
}

impl Keys {
    /// The action bound to `key`, if any.
    pub fn action_for(&self, key: KeyEvent) -> (r: Option<Action>)
        ensures
            r == first_action(self.bindings@, key),
    {
        assert(self.bindings@.skip(0) == self.bindings@);
        for i in 0..self.bindings.len()
            invariant
                first_action(self.bindings@, key) == first_action(
                    self.bindings@.skip(i as int),
                    key,
                ),
        {
            assert(self.bindings@.skip(i as int).drop_first() == self.bindings@.skip(i + 1));
            if self.bindings[i].0.matches(key) {
                return Some(self.bindings[i].1);
            }
        }
        None
    }
}

// ---- the document --------------------------------------------------------

/// A value of a TOML document. `Other` stands for the kinds that no entry
/// takes: numbers and dates.
#[derive(Debug, PartialEq)]
pub enum Node {
    Text(String),
    Flag(bool),
    List(Vec<Node>),
    Table(Vec<(String, Node)>),
    Other,
}

/// A value of a TOML document, over texts.
pub enum Tree {
    Text(Seq<char>),
    Flag(bool),
    List(Seq<Tree>),
    Table(Seq<Field>),
    Other,
}

/// One entry of a table.
pub struct Field {
    pub key: Seq<char>,
    pub value: Tree,
}

impl View for Node {
    type V = Tree;

    open spec fn view(&self) -> Tree
        decreases self,
    {
        match self {
            Node::Text(s) => Tree::Text(s@),
            Node::Flag(b) => Tree::Flag(*b),
            Node::List(v) => Tree::List(
                Seq::new(
                    v@.len(),
                    |i: int|
                        if 0 <= i < v@.len() {
                            v@[i]@
                        } else {
                            Tree::Other
                        },
                ),
            ),
            Node::Table(v) => Tree::Table(
                Seq::new(
                    v@.len(),
                    |i: int|
                        if 0 <= i < v@.len() {
                            Field { key: v@[i].0@, value: v@[i].1@ }
                        } else {
                            Field { key: Seq::empty(), value: Tree::Other }
                        },
                ),
            ),
            Node::Other => Tree::Other,
        }
    }
}

/// `toml::Value`.
#[verifier::external_type_specification]
#[verifier::external_body]
pub struct ExTomlValue(toml::Value);

/// What a `toml::Value` holds.
pub uninterp spec fn value_tree(v: toml::Value) -> Tree;

/// What `toml::from_str` reads from a text, or what its error says.
pub uninterp spec fn toml_reading(text: Seq<char>) -> Result<Tree, Seq<char>>;

/// `toml::from_str` into a `toml::Value`: decided by the text alone, a document
/// or an error with its message. The empty text is an empty document.
#[verifier::external_body]
fn read_toml(text: &str) -> (r: Result<toml::Value, String>)
    ensures
        match r {
            Ok(v) => toml_reading(text@) == Ok::<Tree, Seq<char>>(value_tree(v)),
            Err(e) => toml_reading(text@) == Err::<Tree, Seq<char>>(e@),
        },
        text@.len() == 0 ==> r is Ok && value_tree(r->Ok_0) == Tree::Table(Seq::empty()),
{
    toml::from_str::<toml::Value>(text).map_err(|e| e.to_string())
}

/// The variants of `toml::Value`, one for one: what the value holds.
#[verifier::external_body]
fn node(v: toml::Value) -> (r: Node)
    ensures
        r@ == value_tree(v),
{
    match v {
        toml::Value::String(s) => Node::Text(s),
        toml::Value::Boolean(b) => Node::Flag(b),
        toml::Value::Array(a) => Node::List(a.into_iter().map(node).collect()),
        toml::Value::Table(t) => Node::Table(t.into_iter().map(|(k, v)| (k, node(v))).collect()),
        toml::Value::Integer(_) => Node::Other,
        toml::Value::Float(_) => Node::Other,
        toml::Value::Datetime(_) => Node::Other,
    }
}

// ---- the entries ---------------------------------------------------------

/// The entries of a file as they stand there. The chords of the direct bindings
/// come in the order of their table.
pub struct RawConfig {
    pub prefix: Option<String>,
    pub mouse: Option<bool>,
    pub preset: Option<String>,
    pub sidebar: Option<String>,
    pub chrome_background: Option<bool>,
    pub icons: Option<String>,
    pub notifications: Option<bool>,
    pub keys: Vec<Option<String>>,
    pub projects: Vec<String>,
}

/// The entries of a file, over texts.
#[verifier::ext_equal]
pub struct Entries {
    pub prefix: Option<Seq<char>>,
    pub mouse: Option<bool>,
    pub preset: Option<Seq<char>>,
    pub sidebar: Option<Seq<char>>,
    pub chrome_background: Option<bool>,
    pub icons: Option<Seq<char>>,
    pub notifications: Option<bool>,
    pub keys: Seq<Option<Seq<char>>>,
    pub projects: Seq<Seq<char>>,
}

/// The texts of optional strings.
pub open spec fn opt_texts(s: Seq<Option<String>>) -> Seq<Option<Seq<char>>> {
    s.map_values(|x: Option<String>| opt_text(x))
}

impl View for RawConfig {
    type V = Entries;

    open spec fn view(&self) -> Entries {
        Entries {
            prefix: opt_text(self.prefix),
            mouse: self.mouse,
            preset: opt_text(self.preset),
            sidebar: opt_text(self.sidebar),
            chrome_background: self.chrome_background,
            icons: opt_text(self.icons),
            notifications: self.notifications,
            keys: opt_texts(self.keys@),
            projects: texts(self.projects@),
        }
    }
}

/// A file without entries.
pub open spec fn no_entries() -> Entries {
    Entries {
        prefix: None,
        mouse: None,
        preset: None,
        sidebar: None,
        chrome_background: None,
        icons: None,
        notifications: None,
        keys: Seq::new(DIRECT as nat, |i: int| None),
        projects: Seq::empty(),
    }
}

/// The place of the direct binding whose entry is `name`, from `i` on.
pub open spec fn entry_index(name: Seq<char>, i: int) -> Option<int>
    decreases DIRECT - i,
{
    if i >= DIRECT {
        None
    } else if name == entry_at(i) {
        Some(i)
    } else {
        entry_index(name, i + 1)
    }
}

/// The chords of the `[keys]` table once the first `n` of its entries are read.
pub open spec fn keys_read(
    keys: Seq<Option<Seq<char>>>,
    table: Seq<Field>,
    n: int,
) -> Result<Seq<Option<Seq<char>>>, Fault>
    decreases n,
{
    if n <= 0 {
        Ok(keys)
    } else {
        match keys_read(keys, table, n - 1) {
            Err(f) => Err(f),
            Ok(have) => match entry_index(table[n - 1].key, 0) {
                None => Err(Fault::UnknownKey("keys."@ + table[n - 1].key)),
                Some(i) => match table[n - 1].value {
                    Tree::Text(s) => Ok(have.update(i, Some(s))),
                    _ => Err(Fault::WrongType("keys."@ + table[n - 1].key)),
                },
            },
        }
    }
}

/// The first `n` chords of `keys` where they are a list: each in the order of the
/// table of direct bindings, none left out. What comes after them counts for
/// nothing.
pub open spec fn keys_listed(list: Seq<Tree>, n: int) -> Result<Seq<Option<Seq<char>>>, Fault>
    decreases n,
{
    if n <= 0 {
        Ok(Seq::empty())
    } else {
        match keys_listed(list, n - 1) {
            Err(f) => Err(f),
            Ok(have) => if n > list.len() {
                Err(Fault::WrongType("keys"@))
            } else {
                match list[n - 1] {
                    Tree::Text(s) => Ok(have.push(Some(s))),
                    _ => Err(Fault::WrongType("keys."@ + entry_at(n - 1))),
                }
            },
        }
    }
}

/// The directory of a project once the first `n` entries of its table are read.
pub open spec fn project_read(table: Seq<Field>, n: int) -> Result<
    Option<Seq<char>>,
    Fault,
>
    decreases n,
{
    if n <= 0 {
        Ok(None)
    } else {
        match project_read(table, n - 1) {
            Err(f) => Err(f),
            Ok(have) => if table[n - 1].key != "dir"@ {
                Err(Fault::UnknownKey("projects."@ + table[n - 1].key))
            } else {
                match table[n - 1].value {
                    Tree::Text(s) => Ok(Some(s)),
                    _ => Err(Fault::WrongType("projects.dir"@)),
                }
            },
        }
    }
}

/// The directory of a project: the `dir` of a table, or what comes first in a list.
pub open spec fn project_dir(project: Tree) -> Result<Seq<char>, Fault> {
    match project {
        Tree::Table(table) => match project_read(table, table.len() as int) {
            Err(f) => Err(f),
            Ok(Some(dir)) => Ok(dir),
            Ok(None) => Err(Fault::MissingDir),
        },
        Tree::List(list) => if list.len() == 0 {
            Err(Fault::MissingDir)
        } else {
            match list[0] {
                Tree::Text(s) => Ok(s),
                _ => Err(Fault::WrongType("projects.dir"@)),
            }
        },
        _ => Err(Fault::WrongType("projects"@)),
    }
}

/// The directories of the first `n` projects.
pub open spec fn projects_read(list: Seq<Tree>, n: int) -> Result<Seq<Seq<char>>, Fault>
    decreases n,
{
    if n <= 0 {
        Ok(Seq::empty())
    } else {
        match projects_read(list, n - 1) {
            Err(f) => Err(f),
            Ok(have) => match project_dir(list[n - 1]) {
                Err(f) => Err(f),
                Ok(dir) => Ok(have.push(dir)),
            },
        }
    }
}

/// The entries once `key` is read as well.
pub open spec fn entry_read(have: Entries, key: Seq<char>, value: Tree) -> Result<Entries, Fault> {
    if key == "prefix"@ {
        match value {
            Tree::Text(s) => Ok(Entries { prefix: Some(s), ..have }),
            _ => Err(Fault::WrongType(key)),
        }
    } else if key == "mouse"@ {
        match value {
            Tree::Flag(b) => Ok(Entries { mouse: Some(b), ..have }),
            _ => Err(Fault::WrongType(key)),
        }
    } else if key == "preset"@ {
        match value {
            Tree::Text(s) => Ok(Entries { preset: Some(s), ..have }),
            _ => Err(Fault::WrongType(key)),
        }
    } else if key == "sidebar"@ {
        match value {
            Tree::Text(s) => Ok(Entries { sidebar: Some(s), ..have }),
            _ => Err(Fault::WrongType(key)),
        }
    } else if key == "chrome_background"@ {
        match value {
            Tree::Flag(b) => Ok(Entries { chrome_background: Some(b), ..have }),
            _ => Err(Fault::WrongType(key)),
        }
    } else if key == "icons"@ {
        match value {
            Tree::Text(s) => Ok(Entries { icons: Some(s), ..have }),
            _ => Err(Fault::WrongType(key)),
        }
    } else if key == "notifications"@ {
        match value {
            Tree::Flag(b) => Ok(Entries { notifications: Some(b), ..have }),
            _ => Err(Fault::WrongType(key)),
        }
    } else if key == "keys"@ {
        match value {
            Tree::Table(table) => match keys_read(have.keys, table, table.len() as int) {
                Ok(keys) => Ok(Entries { keys, ..have }),
                Err(f) => Err(f),
            },
            Tree::List(list) => match keys_listed(list, DIRECT as int) {
                Ok(keys) => Ok(Entries { keys, ..have }),
                Err(f) => Err(f),
            },
            _ => Err(Fault::WrongType(key)),
        }
    } else if key == "projects"@ {
        match value {
            Tree::List(list) => match projects_read(list, list.len() as int) {
                Ok(projects) => Ok(Entries { projects, ..have }),
                Err(f) => Err(f),
            },
            _ => Err(Fault::WrongType(key)),
        }
    } else {
        Err(Fault::UnknownKey(key))
    }
}

/// The entries of a document once the first `n` of its keys are read.
pub open spec fn entries_read(table: Seq<Field>, n: int) -> Result<Entries, Fault>
    decreases n,
{
    if n <= 0 {
        Ok(no_entries())
    } else {
        match entries_read(table, n - 1) {
            Err(f) => Err(f),
            Ok(have) => entry_read(have, table[n - 1].key, table[n - 1].value),
        }
    }
}

/// The entries of a document.
pub open spec fn document_read(doc: Tree) -> Result<Entries, Fault> {
    match doc {
        Tree::Table(table) => entries_read(table, table.len() as int),
        _ => Err(Fault::WrongType(Seq::empty())),
    }
}

/// The outcome of reading entries, over texts.
pub open spec fn raw_outcome(r: Result<RawConfig, ConfigError>) -> Result<Entries, Fault> {
    match r {
        Ok(raw) => Ok(raw@),
        Err(e) => Err(e@),
    }
}

fn find_entry(name: &str) -> (r: Option<usize>)
    ensures
        match r {
            Some(i) => i < DIRECT && entry_index(name@, 0) == Some(i as int),
            None => entry_index(name@, 0) is None,
        },
{
    for i in 0..DIRECT
        invariant
            entry_index(name@, 0) == entry_index(name@, i as int),
    {
        if same(name, direct_entry(i).1) {
            return Some(i);
        }
    }
    None
}

/// The entries of a table.
pub open spec fn rows(v: Seq<(String, Node)>) -> Seq<Field> {
    Seq::new(v.len(), |i: int| Field { key: v[i].0@, value: v[i].1@ })
}

/// The items of a list.
pub open spec fn items(v: Seq<Node>) -> Seq<Tree> {
    Seq::new(v.len(), |i: int| v[i]@)
}

/// A table holds its entries, a list its items.
pub proof fn nodes_hold(n: Node)
    ensures
        n matches Node::Table(v) ==> n@ == Tree::Table(rows(v@)),
        n matches Node::List(v) ==> n@ == Tree::List(items(v@)),
{
    match n {
        Node::Table(v) => {
            assert(n@->Table_0 =~= rows(v@));
        },
        Node::List(v) => {
            assert(n@->List_0 =~= items(v@));
        },
        _ => {},
    }
}

fn read_keys(keys: Vec<Option<String>>, table: &Vec<(String, Node)>) -> (r: Result<
    Vec<Option<String>>,
    ConfigError,
>)
    requires
        keys@.len() == DIRECT,
    ensures
        match keys_read(opt_texts(keys@), rows(table@), table@.len() as int) {
            Ok(have) => r matches Ok(v) && opt_texts(v@) == have && v@.len() == DIRECT,
            Err(f) => r matches Err(e) && e@ == f,
        },
{
    let mut out: Vec<Option<String>> = keys;
    let ghost start = opt_texts(keys@);
    let ghost t = rows(table@);
    for i in 0..table.len()
        invariant
            t == rows(table@),
            start == opt_texts(keys@),
            out@.len() == DIRECT,
            keys_read(start, t, i as int) == Ok::<Seq<Option<Seq<char>>>, Fault>(opt_texts(out@)),
    {
        proof {
            errors_stay_keys(start, t, i + 1, t.len() as int);
        }
        let name: &String = &table[i].0;
        match find_entry(name.as_str()) {
            None => {
                return Err(ConfigError::UnknownKey(glue("keys.", name.as_str())));
            },
            Some(k) => match &table[i].1 {
                Node::Text(s) => {
                    let ghost before = opt_texts(out@);
                    out.set(k, Some(s.clone()));
                    assert(opt_texts(out@) == before.update(k as int, Some(s@)));
                },
                _ => {
                    return Err(ConfigError::WrongType(glue("keys.", name.as_str())));
                },
            },
        }
    }
    Ok(out)
}

proof fn errors_stay_keys(
    start: Seq<Option<Seq<char>>>,
    t: Seq<Field>,
    i: int,
    n: int,
)
    requires
        0 <= i <= n,
    ensures
        keys_read(start, t, i) is Err ==> keys_read(start, t, n) == keys_read(start, t, i),
    decreases n,
{
    if i < n {
        errors_stay_keys(start, t, i, n - 1);
    }
}

fn list_keys(list: &Vec<Node>) -> (r: Result<Vec<Option<String>>, ConfigError>)
    ensures
        match keys_listed(items(list@), DIRECT as int) {
            Ok(have) => r matches Ok(v) && opt_texts(v@) == have && v@.len() == DIRECT,
            Err(f) => r matches Err(e) && e@ == f,
        },
{
    let mut out: Vec<Option<String>> = Vec::new();
    let ghost l = items(list@);
    assert(opt_texts(out@) == Seq::<Option<Seq<char>>>::empty());
    for i in 0..DIRECT
        invariant
            l == items(list@),
            out@.len() == i,
            keys_listed(l, i as int) == Ok::<Seq<Option<Seq<char>>>, Fault>(opt_texts(out@)),
    {
        proof {
            errors_stay_listed(l, i + 1, DIRECT as int);
        }
        if i >= list.len() {
            return Err(ConfigError::WrongType("keys".to_owned()));
        }
        match &list[i] {
            Node::Text(s) => {
                let ghost before = opt_texts(out@);
                out.push(Some(s.clone()));
                assert(opt_texts(out@) == before.push(Some(s@)));
            },
            _ => {
                return Err(ConfigError::WrongType(glue("keys.", direct_entry(i).1)));
            },
        }
    }
    Ok(out)
}

proof fn errors_stay_listed(l: Seq<Tree>, i: int, n: int)
    requires
        0 <= i <= n,
    ensures
        keys_listed(l, i) is Err ==> keys_listed(l, n) == keys_listed(l, i),
    decreases n,
{
    if i < n {
        errors_stay_listed(l, i, n - 1);
    }
}

fn read_project(table: &Vec<(String, Node)>) -> (r: Result<Option<String>, ConfigError>)
    ensures
        match project_read(rows(table@), table@.len() as int) {
            Ok(have) => r matches Ok(v) && opt_text(v) == have,
            Err(f) => r matches Err(e) && e@ == f,
        },
{
    let mut out: Option<String> = None;
    let ghost t = rows(table@);
    for i in 0..table.len()
        invariant
            t == rows(table@),
            project_read(t, i as int) == Ok::<Option<Seq<char>>, Fault>(opt_text(out)),
    {
        proof {
            errors_stay_project(t, i + 1, t.len() as int);
        }
        if !same(table[i].0.as_str(), "dir") {
            return Err(ConfigError::UnknownKey(glue("projects.", table[i].0.as_str())));
        }
        match &table[i].1 {
            Node::Text(s) => {
                out = Some(s.clone());
            },
            _ => {
                return Err(ConfigError::WrongType("projects.dir".to_owned()));
            },
        }
    }
    Ok(out)
}

proof fn errors_stay_project(t: Seq<Field>, i: int, n: int)
    requires
        0 <= i <= n,
    ensures
        project_read(t, i) is Err ==> project_read(t, n) == project_read(t, i),
    decreases n,
{
    if i < n {
        errors_stay_project(t, i, n - 1);
    }
}

fn read_dir(project: &Node) -> (r: Result<String, ConfigError>)
    ensures
        match project_dir(project@) {
            Ok(dir) => r matches Ok(v) && v@ == dir,
            Err(f) => r matches Err(e) && e@ == f,
        },
{
    proof {
        nodes_hold(*project);
    }
    match project {
        Node::Table(table) => match read_project(table) {
            Err(e) => Err(e),
            Ok(Some(dir)) => Ok(dir),
            Ok(None) => Err(ConfigError::MissingDir),
        },
        Node::List(list) => {
            if list.len() == 0 {
                return Err(ConfigError::MissingDir);
            }
            match &list[0] {
                Node::Text(s) => Ok(s.clone()),
                _ => Err(ConfigError::WrongType("projects.dir".to_owned())),
            }
        },
        _ => Err(ConfigError::WrongType("projects".to_owned())),
    }
}

fn read_projects(list: &Vec<Node>) -> (r: Result<Vec<String>, ConfigError>)
    ensures
        match projects_read(items(list@), list@.len() as int) {
            Ok(have) => r matches Ok(v) && texts(v@) == have,
            Err(f) => r matches Err(e) && e@ == f,
        },
{
    let mut out: Vec<String> = Vec::new();
    let ghost l = items(list@);
    assert(texts(out@) == Seq::<Seq<char>>::empty());
    for i in 0..list.len()
        invariant
            l == items(list@),
            projects_read(l, i as int) == Ok::<Seq<Seq<char>>, Fault>(texts(out@)),
    {
        proof {
            errors_stay_projects(l, i + 1, l.len() as int);
        }
        match read_dir(&list[i]) {
            Err(e) => {
                return Err(e);
            },
            Ok(dir) => {
                let ghost before = texts(out@);
                let ghost d = dir@;
                out.push(dir);
                assert(texts(out@) == before.push(d));
            },
        }
    }
    Ok(out)
}

proof fn errors_stay_projects(l: Seq<Tree>, i: int, n: int)
    requires
        0 <= i <= n,
    ensures
        projects_read(l, i) is Err ==> projects_read(l, n) == projects_read(l, i),
    decreases n,
{
    if i < n {
        errors_stay_projects(l, i, n - 1);
    }
}

proof fn errors_stay_entries(t: Seq<Field>, i: int, n: int)
    requires
        0 <= i <= n,
    ensures
        entries_read(t, i) is Err ==> entries_read(t, n) == entries_read(t, i),
    decreases n,
{
    if i < n {
        errors_stay_entries(t, i, n - 1);
    }
}

fn wrong_type(key: &str) -> (r: Result<RawConfig, ConfigError>)
    ensures
        raw_outcome(r) == Err::<Entries, Fault>(Fault::WrongType(key@)),
{
    Err(ConfigError::WrongType(key.to_owned()))
}

fn read_entry(raw: RawConfig, key: &str, value: &Node) -> (r: Result<RawConfig, ConfigError>)
    requires
        raw.keys@.len() == DIRECT,
    ensures
        raw_outcome(r) == entry_read(raw@, key@, value@),
        r matches Ok(x) ==> x.keys@.len() == DIRECT,
{
    proof {
        nodes_hold(*value);
    }
    if same(key, "prefix") {
        match value {
            Node::Text(s) => Ok(RawConfig { prefix: Some(s.clone()), ..raw }),
            _ => wrong_type(key),
        }
    } else if same(key, "mouse") {
        match value {
            Node::Flag(b) => Ok(RawConfig { mouse: Some(*b), ..raw }),
            _ => wrong_type(key),
        }
    } else if same(key, "preset") {
        match value {
            Node::Text(s) => Ok(RawConfig { preset: Some(s.clone()), ..raw }),
            _ => wrong_type(key),
        }
    } else if same(key, "sidebar") {
        match value {
            Node::Text(s) => Ok(RawConfig { sidebar: Some(s.clone()), ..raw }),
            _ => wrong_type(key),
        }
    } else if same(key, "chrome_background") {
        match value {
            Node::Flag(b) => Ok(RawConfig { chrome_background: Some(*b), ..raw }),
            _ => wrong_type(key),
        }
    } else if same(key, "icons") {
        match value {
            Node::Text(s) => Ok(RawConfig { icons: Some(s.clone()), ..raw }),
            _ => wrong_type(key),
        }
    } else if same(key, "notifications") {
        match value {
            Node::Flag(b) => Ok(RawConfig { notifications: Some(*b), ..raw }),
            _ => wrong_type(key),
        }
    } else if same(key, "keys") {
        match value {
            Node::Table(table) => {
                let RawConfig { prefix, mouse, preset, sidebar, chrome_background, icons, notifications, keys, projects } = raw;
                match read_keys(keys, table) {
                    Ok(keys) => Ok(RawConfig { prefix, mouse, preset, sidebar, chrome_background, icons, notifications, keys, projects }),
                    Err(e) => Err(e),
                }
            },
            Node::List(list) => match list_keys(list) {
                Ok(keys) => Ok(RawConfig { keys, ..raw }),
                Err(e) => Err(e),
            },
            _ => wrong_type(key),
        }
    } else if same(key, "projects") {
        match value {
            Node::List(list) => match read_projects(list) {
                Ok(projects) => Ok(RawConfig { projects, ..raw }),
                Err(e) => Err(e),
            },
            _ => wrong_type(key),
        }
    } else {
        Err(ConfigError::UnknownKey(key.to_owned()))
    }
}

impl RawConfig {
    /// No entries.
    pub fn empty() -> (r: RawConfig)
        ensures
            r@ == no_entries(),
            r.keys@.len() == DIRECT,
    {
        let keys: Vec<Option<String>> = vec![None, None, None, None, None, None, None, None, None];
        let raw = RawConfig {
            prefix: None,
            mouse: None,
            preset: None,
            sidebar: None,
            chrome_background: None,
            icons: None,
            notifications: None,
            keys,
            projects: Vec::new(),
        };
        assert(raw@ =~= no_entries());
        raw
    }

    /// The entries of a document, in its order.
    pub fn read(doc: &Node) -> (r: Result<RawConfig, ConfigError>)
        ensures
            raw_outcome(r) == document_read(doc@),
            r matches Ok(x) ==> x.keys@.len() == DIRECT,
    {
        proof {
            nodes_hold(*doc);
        }
        let mut raw: RawConfig = RawConfig::empty();
        match doc {
            Node::Table(table) => {
                let ghost t = rows(table@);
                for i in 0..table.len()
                    invariant
                        t == rows(table@),
                        doc@ == Tree::Table(t),
                        raw.keys@.len() == DIRECT,
                        entries_read(t, i as int) == Ok::<Entries, Fault>(raw@),
                {
                    proof {
                        errors_stay_entries(t, i + 1, t.len() as int);
                    }
                    match read_entry(raw, table[i].0.as_str(), &table[i].1) {
                        Ok(next) => {
                            raw = next;
                        },
                        Err(e) => {
                            return Err(e);
                        },
                    }
                }
                Ok(raw)
            },
            _ => Err(ConfigError::WrongType(String::new())),
        }
    }
}

// ---- the configuration ---------------------------------------------------

/// The configuration in effect.
#[derive(Debug, Clone)]
pub struct Config {
    pub prefix: Chord,
    pub mouse: bool,
    pub keys: Keys,
    pub preset: Preset,
    pub sidebar: SidebarVisibility,
    /// Whether the chrome is shaded on terminals that can show it.
    pub chrome_background: bool,
    pub icons: Icons,
    /// Whether pane notifications reach the real terminal and the status line.
    pub notifications: bool,
    /// The directories to open on attach.
    pub projects: Vec<String>,
    pub prefix_bindings: Vec<PrefixBinding>,
}

/// The configuration in effect, over texts.
#[verifier::ext_equal]
pub struct Settings {
    pub prefix: Chord,
    pub mouse: bool,
    pub keys: Seq<(Chord, Action)>,
    pub preset: Preset,
    pub sidebar: SidebarVisibility,
    pub chrome_background: bool,
    pub icons: Icons,
    pub notifications: bool,
    pub projects: Seq<Seq<char>>,
    pub prefix_bindings: Seq<BindingLine>,
}

impl View for Config {
    type V = Settings;

    open spec fn view(&self) -> Settings {
        Settings {
            prefix: self.prefix,
            mouse: self.mouse,
            keys: self.keys.bindings@,
            preset: self.preset,
            sidebar: self.sidebar,
            chrome_background: self.chrome_background,
            icons: self.icons,
            notifications: self.notifications,
            projects: texts(self.projects@),
            prefix_bindings: binding_lines(self.prefix_bindings@),
        }
    }
}

/// The prefix chord that `entry` gives.
pub open spec fn prefix_of(entry: Option<Seq<char>>) -> Result<Chord, Fault> {
    let spec = match entry {
        Some(s) => s,
        None => "C-b"@,
    };
    match chord_of(spec) {
        Some(chord) => Ok(chord),
        None => Err(Fault::Invalid { entry: "prefix"@, value: spec }),
    }
}

/// The preset that `entry` names.
pub open spec fn preset_of(entry: Option<Seq<char>>) -> Result<Preset, Fault> {
    match entry {
        None => Ok(Preset::Default),
        Some(s) => if s == "default"@ {
            Ok(Preset::Default)
        } else if s == "vim"@ {
            Ok(Preset::Vim)
        } else {
            Err(Fault::UnknownValue { entry: "preset"@, value: s })
        },
    }
}

/// The sidebar setting that `entry` names.
pub open spec fn sidebar_of(entry: Option<Seq<char>>) -> Result<SidebarVisibility, Fault> {
    match entry {
        None => Ok(SidebarVisibility::On),
        Some(s) => if s == "on"@ {
            Ok(SidebarVisibility::On)
        } else if s == "auto"@ {
            Ok(SidebarVisibility::Auto)
        } else if s == "off"@ {
            Ok(SidebarVisibility::Off)
        } else {
            Err(Fault::UnknownValue { entry: "sidebar"@, value: s })
        },
    }
}

/// The glyph set that `entry` names.
pub open spec fn icons_of(entry: Option<Seq<char>>) -> Result<Icons, Fault> {
    match entry {
        None => Ok(Icons::Unicode),
        Some(s) => if s == "unicode"@ {
            Ok(Icons::Unicode)
        } else if s == "nerdfont"@ {
            Ok(Icons::Nerdfont)
        } else {
            Err(Fault::UnknownValue { entry: "icons"@, value: s })
        },
    }
}

/// The binding of the `i`th action: none where the entry is `none`, else the
/// chord it gives, or the default where there is no entry.
pub open spec fn direct_of(entry: Option<Seq<char>>, i: int) -> Result<
    Seq<(Chord, Action)>,
    Fault,
> {
    let spec = match entry {
        Some(s) => s,
        None => default_at(i),
    };
    if entry == Some("none"@) {
        Ok(Seq::empty())
    } else {
        match chord_of(spec) {
            Some(chord) => Ok(seq![(chord, action_at(i))]),
            None => Err(Fault::Invalid { entry: "keys."@ + entry_at(i), value: spec }),
        }
    }
}

/// The first `n` direct bindings.
pub open spec fn bindings_of(entries: Seq<Option<Seq<char>>>, n: int) -> Result<
    Seq<(Chord, Action)>,
    Fault,
>
    decreases n,
{
    if n <= 0 {
        Ok(Seq::empty())
    } else {
        match bindings_of(entries, n - 1) {
            Err(f) => Err(f),
            Ok(have) => match direct_of(entries[n - 1], n - 1) {
                Err(f) => Err(f),
                Ok(one) => Ok(have + one),
            },
        }
    }
}

/// A configured directory: `~` and `~/rest` are seen from the home directory,
/// everything else is taken as written.
pub open spec fn home_expanded(input: Seq<char>, home: Option<Seq<char>>) -> Seq<char> {
    match home {
        Some(h) => if input == "~"@ {
            h
        } else if begins(input, "~/"@) {
            joined(h, input.skip(2))
        } else {
            input
        },
        None => input,
    }
}

/// The configuration that a file's entries give.
pub open spec fn settings_of(raw: Entries, home: Option<Seq<char>>) -> Result<Settings, Fault> {
    match prefix_of(raw.prefix) {
        Err(f) => Err(f),
        Ok(prefix) => match preset_of(raw.preset) {
            Err(f) => Err(f),
            Ok(preset) => match sidebar_of(raw.sidebar) {
                Err(f) => Err(f),
                Ok(sidebar) => match icons_of(raw.icons) {
                    Err(f) => Err(f),
                    Ok(icons) => match bindings_of(raw.keys, DIRECT as int) {
                        Err(f) => Err(f),
                        Ok(keys) => Ok(
                            Settings {
                                prefix,
                                mouse: raw.mouse != Some(false),
                                keys,
                                preset,
                                sidebar,
                                chrome_background: raw.chrome_background != Some(false),
                                icons,
                                notifications: raw.notifications != Some(false),
                                projects: raw.projects.map_values(
                                    |d: Seq<char>| home_expanded(d, home),
                                ),
                                prefix_bindings: keymap(preset),
                            },
                        ),
                    },
                },
            },
        },
    }
}

/// The configuration that a file gives.
pub open spec fn configured(text: Seq<char>, home: Option<Seq<char>>) -> Result<Settings, Fault> {
    match toml_reading(text) {
        Err(message) => Err(Fault::Syntax(message)),
        Ok(doc) => match document_read(doc) {
            Err(f) => Err(f),
            Ok(raw) => settings_of(raw, home),
        },
    }
}

/// The outcome of making a configuration, over texts.
pub open spec fn outcome(r: Result<Config, ConfigError>) -> Result<Settings, Fault> {
    match r {
        Ok(c) => Ok(c@),
        Err(e) => Err(e@),
    }
}

fn prefix_from(entry: &Option<String>) -> (r: Result<Chord, ConfigError>)
    ensures
        match prefix_of(opt_text(*entry)) {
            Ok(chord) => r matches Ok(c) && c == chord,
            Err(f) => r matches Err(e) && e@ == f,
        },
{
    let spec: &str = match entry {
        Some(s) => s.as_str(),
        None => "C-b",
    };
    match Chord::parse(spec) {
        Ok(chord) => Ok(chord),
        Err(_) => Err(
            ConfigError::Invalid { entry: "prefix".to_owned(), value: spec.to_owned() },
        ),
    }
}

fn unknown_value(entry: &str, value: &str) -> (r: ConfigError)
    ensures
        r@ == (Fault::UnknownValue { entry: entry@, value: value@ }),
{
    ConfigError::UnknownValue { entry: entry.to_owned(), value: value.to_owned() }
}

fn preset_from(entry: &Option<String>) -> (r: Result<Preset, ConfigError>)
    ensures
        match preset_of(opt_text(*entry)) {
            Ok(v) => r matches Ok(x) && x == v,
            Err(f) => r matches Err(e) && e@ == f,
        },
{
    match entry {
        None => Ok(Preset::Default),
        Some(s) => if same(s.as_str(), "default") {
            Ok(Preset::Default)
        } else if same(s.as_str(), "vim") {
            Ok(Preset::Vim)
        } else {
            Err(unknown_value("preset", s.as_str()))
        },
    }
}

fn sidebar_from(entry: &Option<String>) -> (r: Result<SidebarVisibility, ConfigError>)
    ensures
        match sidebar_of(opt_text(*entry)) {
            Ok(v) => r matches Ok(x) && x == v,
            Err(f) => r matches Err(e) && e@ == f,
        },
{
    match entry {
        None => Ok(SidebarVisibility::On),
        Some(s) => if same(s.as_str(), "on") {
            Ok(SidebarVisibility::On)
        } else if same(s.as_str(), "auto") {
            Ok(SidebarVisibility::Auto)
        } else if same(s.as_str(), "off") {
            Ok(SidebarVisibility::Off)
        } else {
            Err(unknown_value("sidebar", s.as_str()))
        },
    }
}

fn icons_from(entry: &Option<String>) -> (r: Result<Icons, ConfigError>)
    ensures
        match icons_of(opt_text(*entry)) {
            Ok(v) => r matches Ok(x) && x == v,
            Err(f) => r matches Err(e) && e@ == f,
        },
{
    match entry {
        None => Ok(Icons::Unicode),
        Some(s) => if same(s.as_str(), "unicode") {
            Ok(Icons::Unicode)
        } else if same(s.as_str(), "nerdfont") {
            Ok(Icons::Nerdfont)
        } else {
            Err(unknown_value("icons", s.as_str()))
        },
    }
}

fn bindings_from(entries: &Vec<Option<String>>) -> (r: Result<Vec<(Chord, Action)>, ConfigError>)
    requires
        entries@.len() == DIRECT,
    ensures
        match bindings_of(opt_texts(entries@), DIRECT as int) {
            Ok(v) => r matches Ok(x) && x@ == v,
            Err(f) => r matches Err(e) && e@ == f,
        },
{
    let mut out: Vec<(Chord, Action)> = Vec::new();
    let ghost all = opt_texts(entries@);
    for i in 0..DIRECT
        invariant
            entries@.len() == DIRECT,
            all == opt_texts(entries@),
            bindings_of(all, i as int) == Ok::<Seq<(Chord, Action)>, Fault>(out@),
    {
        proof {
            errors_stay_bindings(all, i + 1, DIRECT as int);
        }
        let (action, name, default) = direct_entry(i);
        let off: bool = match &entries[i] {
            Some(s) => same(s.as_str(), "none"),
            None => false,
        };
        if !off {
            let spec: &str = match &entries[i] {
                Some(s) => s.as_str(),
                None => default,
            };
            match Chord::parse(spec) {
                Ok(chord) => {
                    let ghost have = out@;
                    out.push((chord, action));
                    assert(out@ == have + seq![(chord, action)]);
                },
                Err(_) => {
                    return Err(
                        ConfigError::Invalid {
                            entry: glue("keys.", name),
                            value: spec.to_owned(),
                        },
                    );
                },
            }
        } else {
            assert(out@ + Seq::<(Chord, Action)>::empty() == out@);
        }
    }
    Ok(out)
}

proof fn errors_stay_bindings(all: Seq<Option<Seq<char>>>, i: int, n: int)
    requires
        0 <= i <= n,
    ensures
        bindings_of(all, i) is Err ==> bindings_of(all, n) == bindings_of(all, i),
    decreases n,
{
    if i < n {
        errors_stay_bindings(all, i, n - 1);
    }
}

/// A configured directory: `~` and `~/rest` are seen from `home`, everything
/// else is taken as written.
pub fn expand_home(input: &str, home: &Option<String>) -> (r: String)
    ensures
        r@ == home_expanded(input@, opt_text(*home)),
{
    proof {
        reveal_strlit("~/");
    }
    match home {
        Some(h) => if same(input, "~") {
            h.clone()
        } else {
            match after_prefix(input, "~/") {
                Some(rest) => join(h.as_str(), rest.as_str()),
                None => input.to_owned(),
            }
        },
        None => input.to_owned(),
    }
}

impl Config {
    /// The configuration that a file's entries give.
    pub fn resolve(raw: RawConfig, home: &Option<String>) -> (r: Result<Config, ConfigError>)
        requires
            raw.keys@.len() == DIRECT,
        ensures
            outcome(r) == settings_of(raw@, opt_text(*home)),
    {
        let prefix: Chord = match prefix_from(&raw.prefix) {
            Ok(v) => v,
            Err(e) => {
                return Err(e);
            },
        };
        let preset: Preset = match preset_from(&raw.preset) {
            Ok(v) => v,
            Err(e) => {
                return Err(e);
            },
        };
        let sidebar: SidebarVisibility = match sidebar_from(&raw.sidebar) {
            Ok(v) => v,
            Err(e) => {
                return Err(e);
            },
        };
        let icons: Icons = match icons_from(&raw.icons) {
            Ok(v) => v,
            Err(e) => {
                return Err(e);
            },
        };
        let bindings: Vec<(Chord, Action)> = match bindings_from(&raw.keys) {
            Ok(v) => v,
            Err(e) => {
                return Err(e);
            },
        };
        let mut projects: Vec<String> = Vec::new();
        let ghost f = |d: Seq<char>| home_expanded(d, opt_text(*home));
        let ghost all = texts(raw.projects@);
        for i in 0..raw.projects.len()
            invariant
                all == texts(raw.projects@),
                f == (|d: Seq<char>| home_expanded(d, opt_text(*home))),
                texts(projects@) == all.take(i as int).map_values(f),
        {
            let ghost have = texts(projects@);
            projects.push(expand_home(raw.projects[i].as_str(), home));
            assert(texts(projects@) == have.push(f(all[i as int])));
            assert(all.take(i + 1).map_values(f) == have.push(f(all[i as int])));
        }
        assert(all.take(all.len() as int) == all);
        let config = Config {
            prefix,
            mouse: raw.mouse.unwrap_or(true),
            keys: Keys { bindings },
            preset,
            sidebar,
            chrome_background: raw.chrome_background.unwrap_or(true),
            icons,
            notifications: raw.notifications.unwrap_or(true),
            projects,
            prefix_bindings: prefix_table(preset),
        };
        assert(config@.projects == raw@.projects.map_values(f));
        Ok(config)
    }

    /// Read a configuration file's text. `home` is the home directory. The
    /// empty text gives the defaults. Every entry is optional; in `[keys]`,
    /// `none` disables a binding and anything else must be a chord.
    pub fn parse(text: &str, home: &Option<String>) -> (r: Result<Config, ConfigError>)
        ensures
            outcome(r) == configured(text@, opt_text(*home)),
            text@.len() == 0 ==> outcome(r) == settings_of(no_entries(), opt_text(*home)),
    {
        match read_toml(text) {
            Err(message) => Err(ConfigError::Syntax(message)),
            Ok(value) => {
                let doc: Node = node(value);
                match RawConfig::read(&doc) {
                    Err(e) => Err(e),
                    Ok(raw) => Config::resolve(raw, home),
                }
            },
        }
    }

    /// The configuration of a file's text, or the defaults where there is no file.
    /// A file that is malformed is an error.
    pub fn load(text: Option<&str>, home: &Option<String>) -> (r: Result<Config, ConfigError>)
        ensures
            outcome(r) == (match opt_str(text) {
                Some(t) => configured(t, opt_text(*home)),
                None => Ok(defaults()),
            }),
    {
        match text {
            Some(t) => Config::parse(t, home),
            None => Ok(Config::default()),
        }
    }

    /// The prefix keymap, which dispatch, the popup and the help all read.
    pub fn prefix_bindings(&self) -> (r: &[PrefixBinding])
        ensures
            r@ == self.prefix_bindings@,
    {
        self.prefix_bindings.as_slice()
    }

    /// The action of the prefix key `code`, if any.
    pub fn prefix_action(&self, code: KeyCode) -> (r: Option<PrefixAction>)
        ensures
            r == bound_action(binding_lines(self.prefix_bindings@), code),
    {
        let ghost lines = binding_lines(self.prefix_bindings@);
        assert(lines.skip(0) == lines);
        for i in 0..self.prefix_bindings.len()
            invariant
                lines == binding_lines(self.prefix_bindings@),
                bound_action(lines, code) == bound_action(lines.skip(i as int), code),
        {
            assert(lines.skip(i as int).drop_first() == lines.skip(i + 1));
            if self.prefix_bindings[i].key == code {
                return Some(self.prefix_bindings[i].action);
            }
        }
        None
    }

    /// The first key of `action`, to show in the hint and the help.
    pub fn prefix_key(&self, action: PrefixAction) -> (r: Option<KeyCode>)
        ensures
            r == bound_key(binding_lines(self.prefix_bindings@), action),
    {
        let ghost lines = binding_lines(self.prefix_bindings@);
        assert(lines.skip(0) == lines);
        for i in 0..self.prefix_bindings.len()
            invariant
                lines == binding_lines(self.prefix_bindings@),
                bound_key(lines, action) == bound_key(lines.skip(i as int), action),
        {
            assert(lines.skip(i as int).drop_first() == lines.skip(i + 1));
            if self.prefix_bindings[i].action == action {
                return Some(self.prefix_bindings[i].key);
            }
        }
        None
    }
}

/// The action of the first of `table` whose key is `code`.
pub open spec fn bound_action(table: Seq<BindingLine>, code: KeyCode) -> Option<PrefixAction>
    decreases table.len(),
{
    if table.len() == 0 {
        None
    } else if table[0].key == code {
        Some(table[0].action)
    } else {
        bound_action(table.drop_first(), code)
    }
}

/// The key of the first of `table` whose action is `action`.
pub open spec fn bound_key(table: Seq<BindingLine>, action: PrefixAction) -> Option<KeyCode>
    decreases table.len(),
{
    if table.len() == 0 {
        None
    } else if table[0].action == action {
        Some(table[0].key)
    } else {
        bound_key(table.drop_first(), action)
    }
}

/// The defaults.
pub open spec fn defaults() -> Settings {
    Settings {
        prefix: chord_of("C-b"@)->0,
        mouse: true,
        keys: Seq::new(DIRECT as nat, |i: int| (chord_of(default_at(i))->0, action_at(i))),
        preset: Preset::Default,
        sidebar: SidebarVisibility::On,
        chrome_background: true,
        icons: Icons::Unicode,
        notifications: true,
        projects: Seq::empty(),
        prefix_bindings: keymap(Preset::Default),
    }
}

/// Where the configuration file lies: below `$XDG_CONFIG_HOME` where that is set
/// and not empty, else below `.config` in the home directory.
pub open spec fn config_file(xdg: Option<Seq<char>>, home: Option<Seq<char>>) -> Seq<char> {
    let base = match xdg {
        Some(dir) if dir.len() > 0 => dir,
        _ => match home {
            Some(h) => joined(h, ".config"@),
            None => ".config"@,
        },
    };
    joined(joined(base, "tutti"@), "config.toml"@)
}

/// Where the configuration file lies.
pub fn config_path(xdg: &Option<String>, home: &Option<String>) -> (r: String)
    ensures
        r@ == config_file(opt_text(*xdg), opt_text(*home)),
{
    let fallback: String = match home {
        Some(h) => join(h.as_str(), ".config"),
        None => ".config".to_owned(),
    };
    let base: &str = match xdg {
        Some(dir) => if dir.as_str().is_empty() {
            fallback.as_str()
        } else {
            dir.as_str()
        },
        None => fallback.as_str(),
    };
    join(join(base, "tutti").as_str(), "config.toml")
}

impl Default for Config {
    /// The defaults: what a file without entries gives.
    fn default() -> (r: Config)
        ensures
            r@ == defaults(),
    {
        proof {
            no_entries_give_the_defaults(None);
        }
        Config::resolve(RawConfig::empty(), &None).unwrap()
    }
}

// ---- laws ----------------------------------------------------------------

/// Every default chord can be read: the prefix is Ctrl-b, and each direct
/// binding has its character with Ctrl or Alt.
pub proof fn default_chords_are_chords(i: int)
    requires
        0 <= i < DIRECT,
    ensures
        chord_of(default_at(i)) is Some,
        default_at(i) != "none"@,
        chord_of("C-b"@) == Some(
            Chord {
                code: KeyCode::Char('b'),
                mods: KeyModifiers { shift: false, control: true, alt: false, other: false },
            },
        ),
{
    reveal_strlit("C-");
    reveal_strlit("A-");
    reveal_strlit("C-b");
    reveal_strlit("C-h");
    reveal_strlit("C-j");
    reveal_strlit("C-k");
    reveal_strlit("C-l");
    reveal_strlit("A-h");
    reveal_strlit("A-j");
    reveal_strlit("A-k");
    reveal_strlit("A-l");
    reveal_strlit("A-x");
    reveal_strlit("none");
    assert("C-b"@.take(2) =~= "C-"@);
    let s = default_at(i);
    assert(s.len() == 3);
    if i < 4 {
        assert(s.take(2) =~= "C-"@);
    } else {
        assert(s.take(2) =~= "A-"@);
        assert(s.take(2)[0] != "C-"@[0]);
    }
}

/// A file without entries gives the defaults, whatever the home directory.
pub proof fn no_entries_give_the_defaults(home: Option<Seq<char>>)
    ensures
        settings_of(no_entries(), home) == Ok::<Settings, Fault>(defaults()),
{
    default_bindings(no_entries().keys, DIRECT as int);
    default_chords_are_chords(0);
    let f = |d: Seq<char>| home_expanded(d, home);
    assert(no_entries().projects.map_values(f) =~= Seq::<Seq<char>>::empty());
    assert(settings_of(no_entries(), home)->Ok_0 =~= defaults());
}

proof fn default_bindings(keys: Seq<Option<Seq<char>>>, n: int)
    requires
        0 <= n <= DIRECT,
        keys.len() == DIRECT,
        forall|i: int|
            0 <= i < DIRECT ==> (#[trigger] keys[i]) is None || keys[i] == Some(default_at(i)),
    ensures
        bindings_of(keys, n) == Ok::<Seq<(Chord, Action)>, Fault>(
            Seq::new(n as nat, |i: int| (chord_of(default_at(i))->0, action_at(i))),
        ),
    decreases n,
{
    let want = Seq::new(n as nat, |i: int| (chord_of(default_at(i))->0, action_at(i)));
    if n > 0 {
        default_bindings(keys, n - 1);
        default_chords_are_chords(n - 1);
        assert(keys[n - 1] is None || keys[n - 1] == Some(default_at(n - 1)));
        let have = Seq::new((n - 1) as nat, |i: int| (chord_of(default_at(i))->0, action_at(i)));
        assert(have + seq![(chord_of(default_at(n - 1))->0, action_at(n - 1))] =~= want);
    } else {
        assert(want =~= Seq::<(Chord, Action)>::empty());
    }
}

/// A file that writes the documented table out, in whole or in part, changes
/// nothing: every entry that states its default may as well be left away.
pub proof fn stating_a_default_changes_nothing(raw: Entries, home: Option<Seq<char>>)
    requires
        raw.prefix is None || raw.prefix == Some("C-b"@),
        raw.mouse != Some(false),
        raw.preset is None || raw.preset == Some("default"@),
        raw.sidebar is None || raw.sidebar == Some("on"@),
        raw.chrome_background != Some(false),
        raw.icons is None || raw.icons == Some("unicode"@),
        raw.notifications != Some(false),
        raw.keys.len() == DIRECT,
        forall|i: int|
            0 <= i < DIRECT ==> (#[trigger] raw.keys[i]) is None || raw.keys[i] == Some(
                default_at(i),
            ),
        raw.projects.len() == 0,
    ensures
        settings_of(raw, home) == Ok::<Settings, Fault>(defaults()),
{
    default_bindings(raw.keys, DIRECT as int);
    default_chords_are_chords(0);
    let f = |d: Seq<char>| home_expanded(d, home);
    assert(raw.projects.map_values(f) =~= Seq::<Seq<char>>::empty());
    assert(settings_of(raw, home)->Ok_0 =~= defaults());
}

/// Whether `key` is a key of the document's top level.
pub open spec fn known_key(key: Seq<char>) -> bool {
    ||| key == "prefix"@
    ||| key == "mouse"@
    ||| key == "preset"@
    ||| key == "sidebar"@
    ||| key == "chrome_background"@
    ||| key == "icons"@
    ||| key == "notifications"@
    ||| key == "keys"@
    ||| key == "projects"@
}

/// Nothing is silently ignored: a document that holds an unknown key is
/// refused, wherever the key stands.
pub proof fn unknown_keys_are_refused(table: Seq<Field>, i: int)
    requires
        0 <= i < table.len(),
        !known_key(table[i].key),
    ensures
        document_read(Tree::Table(table)) is Err,
{
    errors_stay_entries(table, i + 1, table.len() as int);
}

/// Nor is a name in `[keys]` that no action has.
pub proof fn unknown_actions_are_refused(
    keys: Seq<Option<Seq<char>>>,
    table: Seq<Field>,
    i: int,
)
    requires
        0 <= i < table.len(),
        entry_index(table[i].key, 0) is None,
    ensures
        keys_read(keys, table, table.len() as int) is Err,
{
    errors_stay_keys(keys, table, i + 1, table.len() as int);
}

/// An entry `none` disables its binding: no chord triggers the action.
pub proof fn none_disables(raw: Entries, home: Option<Seq<char>>, i: int, key: KeyEvent)
    requires
        0 <= i < DIRECT,
        raw.keys.len() == DIRECT,
        raw.keys[i] == Some("none"@),
        settings_of(raw, home) is Ok,
    ensures
        first_action(settings_of(raw, home)->Ok_0.keys, key) != Some(action_at(i)),
{
    bindings_come_from_their_entries(raw.keys, DIRECT as int);
    let keys = settings_of(raw, home)->Ok_0.keys;
    first_action_is_bound(keys, key);
}

proof fn bindings_come_from_their_entries(entries: Seq<Option<Seq<char>>>, n: int)
    requires
        0 <= n <= DIRECT,
        bindings_of(entries, n) is Ok,
    ensures
        forall|k: int|
            0 <= k < bindings_of(entries, n)->Ok_0.len() ==> exists|i: int|
                0 <= i < n && entries[i] != Some("none"@) && (#[trigger] bindings_of(
                    entries,
                    n,
                )->Ok_0[k]).1 == #[trigger] action_at(i),
    decreases n,
{
    if n > 0 {
        bindings_come_from_their_entries(entries, n - 1);
        let have = bindings_of(entries, n - 1)->Ok_0;
        let one = direct_of(entries[n - 1], n - 1)->Ok_0;
        assert forall|k: int| 0 <= k < (have + one).len() implies exists|i: int|
            0 <= i < n && entries[i] != Some("none"@) && (#[trigger] (have + one)[k]).1
                == #[trigger] action_at(i) by {
            if k < have.len() {
                assert((have + one)[k] == have[k]);
            } else {
                assert((have + one)[k] == one[k - have.len()]);
                assert(one[k - have.len()].1 == action_at(n - 1));
            }
        }
    }
}

proof fn first_action_is_bound(bindings: Seq<(Chord, Action)>, key: KeyEvent)
    ensures
        first_action(bindings, key) matches Some(a) ==> exists|k: int|
            0 <= k < bindings.len() && (#[trigger] bindings[k]).1 == a,
    decreases bindings.len(),
{
    if bindings.len() > 0 {
        if bindings[0].0.is_pressed(key) {
        } else {
            first_action_is_bound(bindings.drop_first(), key);
            if let Some(a) = first_action(bindings.drop_first(), key) {
                let k = choose|k: int|
                    0 <= k < bindings.drop_first().len() && (#[trigger] bindings.drop_first()[k]).1
                        == a;
                assert(bindings[k + 1].1 == a);
            }
        }
    }
}

proof fn bindings_are_characters(entries: Seq<Option<Seq<char>>>, n: int)
    requires
        bindings_of(entries, n) is Ok,
    ensures
        forall|k: int|
            0 <= k < bindings_of(entries, n)->Ok_0.len() ==> (#[trigger] bindings_of(
                entries,
                n,
            )->Ok_0[k]).0.code is Char,
    decreases n,
{
    if n > 0 {
        bindings_are_characters(entries, n - 1);
        let have = bindings_of(entries, n - 1)->Ok_0;
        let one = direct_of(entries[n - 1], n - 1)->Ok_0;
        assert forall|k: int| 0 <= k < (have + one).len() implies (#[trigger] (have
            + one)[k]).0.code is Char by {
            if k < have.len() {
                assert((have + one)[k] == have[k]);
            } else {
                assert((have + one)[k] == one[k - have.len()]);
            }
        }
    }
}

proof fn characters_bind_no_other_key(bindings: Seq<(Chord, Action)>, key: KeyEvent)
    requires
        forall|k: int| 0 <= k < bindings.len() ==> (#[trigger] bindings[k]).0.code is Char,
        !(key.code is Char),
    ensures
        first_action(bindings, key) is None,
    decreases bindings.len(),
{
    if bindings.len() > 0 {
        let rest = bindings.drop_first();
        assert forall|k: int| 0 <= k < rest.len() implies (#[trigger] rest[k]).0.code is Char by {
            assert(rest[k] == bindings[k + 1]);
        }
        characters_bind_no_other_key(rest, key);
        assert(bindings[0].0.code is Char);
    }
}

/// Whatever the configuration, keys that are no characters, such as Esc and Enter,
/// are neither the prefix nor bound.
pub proof fn only_characters_are_bound(raw: Entries, home: Option<Seq<char>>, key: KeyEvent)
    requires
        settings_of(raw, home) is Ok,
        !(key.code is Char),
    ensures
        first_action(settings_of(raw, home)->Ok_0.keys, key) is None,
        !settings_of(raw, home)->Ok_0.prefix.is_pressed(key),
{
    bindings_are_characters(raw.keys, DIRECT as int);
    characters_bind_no_other_key(settings_of(raw, home)->Ok_0.keys, key);
}

proof fn faults_stay(entries: Seq<Option<Seq<char>>>, i: int, n: int)
    requires
        0 <= i < n,
        direct_of(entries[i], i) is Err,
    ensures
        bindings_of(entries, n) is Err,
    decreases n,
{
    if i < n - 1 {
        faults_stay(entries, i, n - 1);
    }
}

/// An entry that is neither a chord nor `none` is refused, whatever else the file
/// holds.
pub proof fn bad_chords_are_refused(raw: Entries, home: Option<Seq<char>>, i: int)
    requires
        0 <= i < DIRECT,
        raw.keys[i] matches Some(s) && s != "none"@ && chord_of(s) is None,
    ensures
        settings_of(raw, home) is Err,
{
    faults_stay(raw.keys, i, DIRECT as int);
}

/// The entry that a fault is about.
pub open spec fn entry_of(f: Fault) -> Option<Seq<char>> {
    match f {
        Fault::Syntax(_) | Fault::BadChord(_) => None,
        Fault::UnknownKey(k) => Some(k),
        Fault::WrongType(k) => Some(k),
        Fault::MissingDir => Some("projects"@),
        Fault::Invalid { entry, .. } => Some(entry),
        Fault::UnknownValue { entry, .. } => Some(entry),
    }
}

/// The message of a fault names the entry that it is about.
pub proof fn messages_name_the_entry(f: Fault)
    ensures
        entry_of(f) matches Some(entry) ==> crate::text::holds(fault_message(f), entry),
{
    reveal_strlit("unknown key: ");
    reveal_strlit("projects: missing key: dir");
    reveal_strlit("projects");
    let message = fault_message(f);
    match f {
        Fault::UnknownKey(k) => {
            let rest = message.skip("unknown key: "@.len() as int);
            assert(rest =~= k);
            assert(rest.take(k.len() as int) =~= k);
            assert(begins(rest, k));
        },
        Fault::MissingDir => {
            assert(message.skip(0) =~= message);
            assert(message.take("projects"@.len() as int) =~= "projects"@);
            assert(begins(message.skip(0), "projects"@));
        },
        _ => {
            match entry_of(f) {
                Some(entry) => {
                    assert(message.skip(0) =~= message);
                    assert(message.take(entry.len() as int) =~= entry);
                    assert(begins(message.skip(0), entry));
                },
                None => {},
            }
        },
    }
}

/// The direct bindings do not depend on the preset.
pub proof fn presets_share_the_direct_bindings(
    raw: Entries,
    other: Option<Seq<char>>,
    home: Option<Seq<char>>,
)
    requires
        settings_of(raw, home) is Ok,
        settings_of(Entries { preset: other, ..raw }, home) is Ok,
    ensures
        settings_of(raw, home)->Ok_0.keys == settings_of(
            Entries { preset: other, ..raw },
            home,
        )->Ok_0.keys,
{
}

/// The rows that the popup and the help show are the dispatch table: in each
/// preset, pressing a row's key does that row's action.
pub proof fn shown_rows_dispatch(preset: Preset, i: int)
    requires
        0 <= i < keymap(preset).len(),
    ensures
        bound_action(keymap(preset), keymap(preset)[i].key) == Some(keymap(preset)[i].action),
{
    let table = keymap(preset);
    assert forall|j: int, k: int| 0 <= j < k < table.len() implies table[j].key != table[k].key by {
    }
    unique_keys_dispatch(table, i);
}

proof fn unique_keys_dispatch(table: Seq<BindingLine>, i: int)
    requires
        0 <= i < table.len(),
        forall|j: int, k: int| 0 <= j < k < table.len() ==> table[j].key != table[k].key,
    ensures
        bound_action(table, table[i].key) == Some(table[i].action),
    decreases table.len(),
{
    if i > 0 {
        let rest = table.drop_first();
        assert forall|j: int, k: int| 0 <= j < k < rest.len() implies rest[j].key
            != rest[k].key by {
            assert(table[j + 1].key != table[k + 1].key);
        }
        unique_keys_dispatch(rest, i - 1);
        assert(rest[i - 1] == table[i]);
        assert(table[0].key != table[i].key);
    }
}

/// Detaching stays within reach in every preset: `q` is its first key in the
/// default one and `d` in the other, and `d` detaches in both.
pub proof fn detach_stays_reachable()
    ensures
        bound_key(keymap(Preset::Default), PrefixAction::Detach) == Some(KeyCode::Char('q')),
        bound_key(keymap(Preset::Vim), PrefixAction::Detach) == Some(KeyCode::Char('d')),
        bound_action(keymap(Preset::Default), KeyCode::Char('d')) == Some(PrefixAction::Detach),
        bound_action(keymap(Preset::Vim), KeyCode::Char('d')) == Some(PrefixAction::Detach),
{
    shown_rows_dispatch(Preset::Default, 17);
    shown_rows_dispatch(Preset::Vim, 7);
    first_key(keymap(Preset::Default), 16);
    first_key(keymap(Preset::Vim), 7);
}

proof fn first_key(table: Seq<BindingLine>, i: int)
    requires
        0 <= i < table.len(),
        forall|j: int| 0 <= j < i ==> (#[trigger] table[j]).action != table[i].action,
    ensures
        bound_key(table, table[i].action) == Some(table[i].key),
    decreases table.len(),
{
    if i > 0 {
        let rest = table.drop_first();
        assert forall|j: int| 0 <= j < i - 1 implies (#[trigger] rest[j]).action != rest[i
            - 1].action by {
            assert(table[j + 1].action != table[i].action);
        }
        first_key(rest, i - 1);
        assert(rest[i - 1] == table[i]);
        assert(table[0].action != table[i].action);
    }
}

/// Each key behind the prefix does what it is known for. In both keymaps the arrows,
/// or the letters that stand for them, move the focus their own way; the other keys
/// split, kill, zoom, browse, go to tabs, and so on.
pub proof fn prefix_keys_are_known()
    ensures
        ({
            let t = keymap(Preset::Default);
            &&& bound_action(t, KeyCode::Left) == Some(PrefixAction::FocusLeft)
            &&& bound_action(t, KeyCode::Down) == Some(PrefixAction::FocusDown)
            &&& bound_action(t, KeyCode::Up) == Some(PrefixAction::FocusUp)
            &&& bound_action(t, KeyCode::Right) == Some(PrefixAction::FocusRight)
            &&& bound_action(t, KeyCode::Char('%')) == Some(PrefixAction::SplitRight)
            &&& bound_action(t, KeyCode::Char('"')) == Some(PrefixAction::SplitDown)
            &&& bound_action(t, KeyCode::Char('x')) == Some(PrefixAction::KillPane)
            &&& bound_action(t, KeyCode::Char('o')) == Some(PrefixAction::FocusCycle)
            &&& bound_action(t, KeyCode::Char('c')) == Some(PrefixAction::TabNew)
            &&& bound_action(t, KeyCode::Char('q')) == Some(PrefixAction::Detach)
        }),
        ({
            let t = keymap(Preset::Vim);
            &&& bound_action(t, KeyCode::Char('h')) == Some(PrefixAction::FocusLeft)
            &&& bound_action(t, KeyCode::Char('j')) == Some(PrefixAction::FocusDown)
            &&& bound_action(t, KeyCode::Char('k')) == Some(PrefixAction::FocusUp)
            &&& bound_action(t, KeyCode::Char('l')) == Some(PrefixAction::FocusRight)
            &&& bound_action(t, KeyCode::Char('v')) == Some(PrefixAction::SplitRight)
            &&& bound_action(t, KeyCode::Char('s')) == Some(PrefixAction::SplitDown)
            &&& bound_action(t, KeyCode::Char('q')) == Some(PrefixAction::KillPane)
            &&& bound_action(t, KeyCode::Char('t')) == Some(PrefixAction::TabNew)
        }),
        forall|preset: Preset|
            {
                let t = #[trigger] keymap(preset);
                &&& bound_action(t, KeyCode::Char('z')) == Some(PrefixAction::Zoom)
                &&& bound_action(t, KeyCode::Char('[')) == Some(PrefixAction::Scrollback)
                &&& bound_action(t, KeyCode::Char('n')) == Some(PrefixAction::TabNext)
                &&& bound_action(t, KeyCode::Char('p')) == Some(PrefixAction::TabPrev)
                &&& bound_action(t, KeyCode::Char('w')) == Some(PrefixAction::Sidebar)
                &&& bound_action(t, KeyCode::Char('r')) == Some(PrefixAction::Run)
                &&& bound_action(t, KeyCode::Char('m')) == Some(PrefixAction::MouseToggle)
                &&& bound_action(t, KeyCode::Char('d')) == Some(PrefixAction::Detach)
                &&& bound_action(t, KeyCode::Char('?')) == Some(PrefixAction::Help)
            },
{
    let t = keymap(Preset::Default);
    assert forall|i: int| 0 <= i < t.len() implies bound_action(t, (#[trigger] t[i]).key) == Some(
        t[i].action,
    ) by {
        shown_rows_dispatch(Preset::Default, i);
    }
    assert(t[0].key == KeyCode::Char('%') && t[1].key == KeyCode::Char('"') && t[2].key
        == KeyCode::Char('x') && t[3].key == KeyCode::Char('z') && t[4].key == KeyCode::Char('[')
        && t[5].key == KeyCode::Char('n') && t[6].key == KeyCode::Char('p') && t[7].key
        == KeyCode::Char('c') && t[8].key == KeyCode::Char('w') && t[9].key == KeyCode::Char('r')
        && t[10].key == KeyCode::Char('o') && t[11].key == KeyCode::Left && t[12].key
        == KeyCode::Down && t[13].key == KeyCode::Up && t[14].key == KeyCode::Right && t[15].key
        == KeyCode::Char('m') && t[16].key == KeyCode::Char('q') && t[17].key == KeyCode::Char('d')
        && t[18].key == KeyCode::Char('?'));
    let v = keymap(Preset::Vim);
    assert forall|i: int| 0 <= i < v.len() implies bound_action(v, (#[trigger] v[i]).key) == Some(
        v[i].action,
    ) by {
        shown_rows_dispatch(Preset::Vim, i);
    }
    assert(v[0].key == KeyCode::Char('v') && v[1].key == KeyCode::Char('s') && v[2].key
        == KeyCode::Char('h') && v[3].key == KeyCode::Char('j') && v[4].key == KeyCode::Char('k')
        && v[5].key == KeyCode::Char('l') && v[6].key == KeyCode::Char('q') && v[7].key
        == KeyCode::Char('d') && v[8].key == KeyCode::Char('t') && v[9].key == KeyCode::Char('n')
        && v[10].key == KeyCode::Char('p') && v[11].key == KeyCode::Char('w') && v[12].key
        == KeyCode::Char('r') && v[13].key == KeyCode::Char('z') && v[14].key == KeyCode::Char('[')
        && v[15].key == KeyCode::Char('m') && v[16].key == KeyCode::Char('?'));
    assert forall|preset: Preset|
        {
            let t = #[trigger] keymap(preset);
            &&& bound_action(t, KeyCode::Char('z')) == Some(PrefixAction::Zoom)
            &&& bound_action(t, KeyCode::Char('[')) == Some(PrefixAction::Scrollback)
            &&& bound_action(t, KeyCode::Char('n')) == Some(PrefixAction::TabNext)
            &&& bound_action(t, KeyCode::Char('p')) == Some(PrefixAction::TabPrev)
            &&& bound_action(t, KeyCode::Char('w')) == Some(PrefixAction::Sidebar)
            &&& bound_action(t, KeyCode::Char('r')) == Some(PrefixAction::Run)
            &&& bound_action(t, KeyCode::Char('m')) == Some(PrefixAction::MouseToggle)
            &&& bound_action(t, KeyCode::Char('d')) == Some(PrefixAction::Detach)
            &&& bound_action(t, KeyCode::Char('?')) == Some(PrefixAction::Help)
        } by {
        match preset {
            Preset::Default => {},
            Preset::Vim => {},
        }
    }
}

/// What a binding is described as tells what it does: two rows, in either keymap,
/// read alike only where they do the same, and what does the same reads alike.
pub proof fn descriptions_tell_actions(p: Preset, q: Preset, i: int, j: int)
    requires
        0 <= i < keymap(p).len(),
        0 <= j < keymap(q).len(),
    ensures
        (keymap(p)[i].desc == keymap(q)[j].desc) == (keymap(p)[i].action == keymap(q)[j].action),
{
    described(p, i);
    described(q, j);
    words_are_distinct(keymap(p)[i].action, keymap(q)[j].action);
}

/// How an action is described.
pub open spec fn description(action: PrefixAction) -> Seq<char> {
    match action {
        PrefixAction::SplitRight => "split right"@,
        PrefixAction::SplitDown => "split below"@,
        PrefixAction::FocusLeft => "focus left"@,
        PrefixAction::FocusDown => "focus down"@,
        PrefixAction::FocusUp => "focus up"@,
        PrefixAction::FocusRight => "focus right"@,
        PrefixAction::FocusCycle => "focus next pane"@,
        PrefixAction::KillPane => "kill pane"@,
        PrefixAction::Zoom => "zoom pane"@,
        PrefixAction::Scrollback => "scrollback"@,
        PrefixAction::TabNext => "next tab"@,
        PrefixAction::TabPrev => "prev tab"@,
        PrefixAction::TabNew => "new tab"@,
        PrefixAction::Sidebar => "workspaces"@,
        PrefixAction::Run => "run"@,
        PrefixAction::MouseToggle => "toggle mouse"@,
        PrefixAction::Detach => "detach"@,
        PrefixAction::Help => "help"@,
    }
}

proof fn described(p: Preset, i: int)
    requires
        0 <= i < keymap(p).len(),
    ensures
        keymap(p)[i].desc == description(keymap(p)[i].action),
{
}

proof fn words_are_distinct(a: PrefixAction, b: PrefixAction)
    ensures
        description(a) == description(b) ==> a == b,
{
    reveal_strlit("split right");
    reveal_strlit("split below");
    reveal_strlit("focus left");
    reveal_strlit("focus down");
    reveal_strlit("focus up");
    reveal_strlit("focus right");
    reveal_strlit("focus next pane");
    reveal_strlit("kill pane");
    reveal_strlit("zoom pane");
    reveal_strlit("scrollback");
    reveal_strlit("next tab");
    reveal_strlit("prev tab");
    reveal_strlit("new tab");
    reveal_strlit("workspaces");
    reveal_strlit("run");
    reveal_strlit("toggle mouse");
    reveal_strlit("detach");
    reveal_strlit("help");
    let x = description(a);
    let y = description(b);
    if x == y {
        assert(x.len() == y.len() && x[0] == y[0] && x[2] == y[2]);
        assert(x.len() > 6 ==> x[6] == y[6]);
    }
}

/// Every direct binding is named for what it does: the entry of the file, the action
/// and the chord where the file says nothing belong together, and no two bindings
/// share one of them.
pub proof fn direct_bindings_belong_together(i: int, j: int)
    requires
        0 <= i < DIRECT,
        0 <= j < DIRECT,
    ensures
        entry_at(i) == entry_at(j) ==> i == j,
        action_at(i) == action_at(j) ==> i == j,
        default_at(i) == default_at(j) ==> i == j,
        entry_at(i) == "focus_left"@ ==> action_at(i) == Action::FocusLeft && default_at(i)
            == "C-h"@,
        entry_at(i) == "focus_down"@ ==> action_at(i) == Action::FocusDown && default_at(i)
            == "C-j"@,
        entry_at(i) == "focus_up"@ ==> action_at(i) == Action::FocusUp && default_at(i) == "C-k"@,
        entry_at(i) == "focus_right"@ ==> action_at(i) == Action::FocusRight && default_at(i)
            == "C-l"@,
        entry_at(i) == "resize_left"@ ==> action_at(i) == Action::ResizeLeft && default_at(i)
            == "A-h"@,
        entry_at(i) == "resize_down"@ ==> action_at(i) == Action::ResizeDown && default_at(i)
            == "A-j"@,
        entry_at(i) == "resize_up"@ ==> action_at(i) == Action::ResizeUp && default_at(i)
            == "A-k"@,
        entry_at(i) == "resize_right"@ ==> action_at(i) == Action::ResizeRight && default_at(i)
            == "A-l"@,
        entry_at(i) == "kill_pane"@ ==> action_at(i) == Action::KillPane && default_at(i)
            == "A-x"@,
        action_at(i) == Action::FocusLeft ==> entry_at(i) == "focus_left"@,
        action_at(i) == Action::FocusDown ==> entry_at(i) == "focus_down"@,
        action_at(i) == Action::FocusUp ==> entry_at(i) == "focus_up"@,
        action_at(i) == Action::FocusRight ==> entry_at(i) == "focus_right"@,
        action_at(i) == Action::ResizeLeft ==> entry_at(i) == "resize_left"@,
        action_at(i) == Action::ResizeDown ==> entry_at(i) == "resize_down"@,
        action_at(i) == Action::ResizeUp ==> entry_at(i) == "resize_up"@,
        action_at(i) == Action::ResizeRight ==> entry_at(i) == "resize_right"@,
        action_at(i) == Action::KillPane ==> entry_at(i) == "kill_pane"@,
{
    reveal_strlit("focus_left");
    reveal_strlit("focus_down");
    reveal_strlit("focus_up");
    reveal_strlit("focus_right");
    reveal_strlit("resize_left");
    reveal_strlit("resize_down");
    reveal_strlit("resize_up");
    reveal_strlit("resize_right");
    reveal_strlit("kill_pane");
    reveal_strlit("C-h");
    reveal_strlit("C-j");
    reveal_strlit("C-k");
    reveal_strlit("C-l");
    reveal_strlit("A-h");
    reveal_strlit("A-j");
    reveal_strlit("A-k");
    reveal_strlit("A-l");
    reveal_strlit("A-x");
    let (x, y) = (entry_at(i), entry_at(j));
    assert(x == y ==> x.len() == y.len() && x[0] == y[0] && x[6] == y[6]);
    assert("focus_left"@[6] == 'l' && "focus_down"@[6] == 'd' && "focus_up"@.len() == 8
        && "focus_right"@[6] == 'r');
    assert("resize_left"@[7] == 'l' && "resize_down"@[7] == 'd' && "resize_up"@.len() == 9
        && "resize_right"@.len() == 12 && "kill_pane"@[0] == 'k');
    assert(x == y && x.len() > 7 ==> x[7] == y[7]);
    let (d, e) = (default_at(i), default_at(j));
    assert(d == e ==> d[0] == e[0] && d[2] == e[2]);
}

/// A chord is written as it is read: what its label says, read again, is the chord.
pub proof fn labels_read_back(chord: Chord, c: char)
    requires
        chord.code == KeyCode::Char(c),
        !crate::text::control(c),
        !chord.mods.shift && !chord.mods.other && !(chord.mods.control && chord.mods.alt),
    ensures
        chord_of(chord.shown()) == Some(chord),
{
    reveal_strlit("C-");
    reveal_strlit("A-");
    let s = chord.shown();
    if chord.mods.control {
        assert(s.take(2) =~= "C-"@);
        assert(s.skip(2) =~= seq![c]);
    } else if chord.mods.alt {
        assert(s.take(2) =~= "A-"@);
        assert(s.take(2)[0] != "C-"@[0]);
        assert(s.skip(2) =~= seq![c]);
    }
}

/// A chord is pressed by its own character with just what it names held: `C-` Ctrl
/// and not Alt, `A-` Alt and not Ctrl, a bare character neither; Shift does not
/// matter.
pub proof fn chords_name_what_is_held(c: char, key: KeyEvent)
    requires
        !crate::text::control(c),
    ensures
        chord_of("C-"@ + seq![c]) matches Some(chord) && chord.is_pressed(key) == (key.code
            == KeyCode::Char(c) && key.modifiers.control && !key.modifiers.alt),
        chord_of("A-"@ + seq![c]) matches Some(chord) && chord.is_pressed(key) == (key.code
            == KeyCode::Char(c) && key.modifiers.alt && !key.modifiers.control),
        chord_of(seq![c]) matches Some(chord) && chord.is_pressed(key) == (key.code
            == KeyCode::Char(c) && !key.modifiers.control && !key.modifiers.alt),
{
    reveal_strlit("C-");
    reveal_strlit("A-");
    let (x, y) = ("C-"@ + seq![c], "A-"@ + seq![c]);
    assert(x.take(2) =~= "C-"@);
    assert(x.skip(2) =~= seq![c]);
    assert(y.take(2) =~= "A-"@);
    assert(y.take(2)[0] != "C-"@[0]);
    assert(y.skip(2) =~= seq![c]);
}

/// The words that an entry can have each name what they say, the default is what
/// the documentation says, and different words give different settings.
pub proof fn words_name_their_settings(a: Seq<char>, b: Seq<char>)
    ensures
        preset_of(None) == Ok::<Preset, Fault>(Preset::Default),
        preset_of(Some("default"@)) == Ok::<Preset, Fault>(Preset::Default),
        preset_of(Some("vim"@)) == Ok::<Preset, Fault>(Preset::Vim),
        sidebar_of(None) == Ok::<SidebarVisibility, Fault>(SidebarVisibility::On),
        sidebar_of(Some("on"@)) == Ok::<SidebarVisibility, Fault>(SidebarVisibility::On),
        sidebar_of(Some("auto"@)) == Ok::<SidebarVisibility, Fault>(SidebarVisibility::Auto),
        sidebar_of(Some("off"@)) == Ok::<SidebarVisibility, Fault>(SidebarVisibility::Off),
        icons_of(None) == Ok::<Icons, Fault>(Icons::Unicode),
        icons_of(Some("unicode"@)) == Ok::<Icons, Fault>(Icons::Unicode),
        icons_of(Some("nerdfont"@)) == Ok::<Icons, Fault>(Icons::Nerdfont),
        preset_of(Some(a)) is Ok && preset_of(Some(a)) == preset_of(Some(b)) ==> a == b,
        sidebar_of(Some(a)) is Ok && sidebar_of(Some(a)) == sidebar_of(Some(b)) ==> a == b,
        icons_of(Some(a)) is Ok && icons_of(Some(a)) == icons_of(Some(b)) ==> a == b,
        preset_of(Some(a)) is Ok ==> a == "default"@ || a == "vim"@,
        sidebar_of(Some(a)) is Ok ==> a == "on"@ || a == "auto"@ || a == "off"@,
        icons_of(Some(a)) is Ok ==> a == "unicode"@ || a == "nerdfont"@,
{
    reveal_strlit("default");
    reveal_strlit("vim");
    reveal_strlit("on");
    reveal_strlit("auto");
    reveal_strlit("off");
    reveal_strlit("unicode");
    reveal_strlit("nerdfont");
    assert("default"@.len() == 7 && "vim"@.len() == 3);
    assert("on"@.len() == 2 && "auto"@.len() == 4 && "off"@.len() == 3);
    assert("unicode"@.len() == 7 && "nerdfont"@.len() == 8);
}

/// What a switch is set to is what is in effect, and a switch that is not set is on.
pub proof fn switches_are_as_set(raw: Entries, home: Option<Seq<char>>)
    requires
        settings_of(raw, home) is Ok,
    ensures
        ({
            let s = settings_of(raw, home)->Ok_0;
            &&& s.mouse == (if raw.mouse is Some {
                raw.mouse->0
            } else {
                true
            })
            &&& s.notifications == (if raw.notifications is Some {
                raw.notifications->0
            } else {
                true
            })
            &&& s.chrome_background == (if raw.chrome_background is Some {
                raw.chrome_background->0
            } else {
                true
            })
            &&& s.projects.len() == raw.projects.len()
        }),
{
}

/// The prefix that is in effect is the one that the file writes, and Ctrl-b where it
/// writes none.
pub proof fn the_prefix_is_as_written(raw: Entries, home: Option<Seq<char>>)
    requires
        settings_of(raw, home) is Ok,
    ensures
        raw.prefix is Some ==> chord_of(raw.prefix->0) == Some(settings_of(raw, home)->Ok_0.prefix),
        raw.prefix is None ==> settings_of(raw, home)->Ok_0.prefix == (Chord {
            code: KeyCode::Char('b'),
            mods: KeyModifiers { shift: false, control: true, alt: false, other: false },
        }),
{
    reveal_strlit("C-b");
    reveal_strlit("C-");
    assert("C-b"@.take(2) =~= "C-"@);
    assert("C-b"@.skip(2) =~= seq!['b']);
}

/// Each entry of the file sets what it is named for and leaves the rest as it is.
pub proof fn entries_set_their_own(have: Entries, text: Seq<char>, flag: bool)
    ensures
        entry_read(have, "prefix"@, Tree::Text(text)) == Ok::<Entries, Fault>(
            Entries { prefix: Some(text), ..have },
        ),
        entry_read(have, "mouse"@, Tree::Flag(flag)) == Ok::<Entries, Fault>(
            Entries { mouse: Some(flag), ..have },
        ),
        entry_read(have, "preset"@, Tree::Text(text)) == Ok::<Entries, Fault>(
            Entries { preset: Some(text), ..have },
        ),
        entry_read(have, "sidebar"@, Tree::Text(text)) == Ok::<Entries, Fault>(
            Entries { sidebar: Some(text), ..have },
        ),
        entry_read(have, "chrome_background"@, Tree::Flag(flag)) == Ok::<Entries, Fault>(
            Entries { chrome_background: Some(flag), ..have },
        ),
        entry_read(have, "icons"@, Tree::Text(text)) == Ok::<Entries, Fault>(
            Entries { icons: Some(text), ..have },
        ),
        entry_read(have, "notifications"@, Tree::Flag(flag)) == Ok::<Entries, Fault>(
            Entries { notifications: Some(flag), ..have },
        ),
{
    reveal_strlit("prefix");
    reveal_strlit("mouse");
    reveal_strlit("preset");
    reveal_strlit("sidebar");
    reveal_strlit("chrome_background");
    reveal_strlit("icons");
    reveal_strlit("notifications");
    assert("prefix"@.len() == 6 && "preset"@.len() == 6 && "prefix"@[3] == 'f' && "preset"@[3]
        == 's');
    assert("mouse"@.len() == 5 && "icons"@.len() == 5 && "mouse"@[0] == 'm' && "icons"@[0] == 'i');
    assert("sidebar"@.len() == 7 && "chrome_background"@.len() == 17 && "notifications"@.len() == 13);
}

/// A chord of the file's table is read into the place of the binding that it names.
pub proof fn chords_go_to_their_binding(
    keys: Seq<Option<Seq<char>>>,
    i: int,
    chord: Seq<char>,
)
    requires
        keys.len() == DIRECT,
        0 <= i < DIRECT,
    ensures
        keys_read(keys, seq![Field { key: entry_at(i), value: Tree::Text(chord) }], 1) == Ok::<
            Seq<Option<Seq<char>>>,
            Fault,
        >(keys.update(i, Some(chord))),
{
    let table = seq![Field { key: entry_at(i), value: Tree::Text(chord) }];
    assert(keys_read(keys, table, 0) == Ok::<Seq<Option<Seq<char>>>, Fault>(keys));
    entries_are_found(i, 0);
}

proof fn entries_are_found(i: int, from: int)
    requires
        0 <= from <= i < DIRECT,
    ensures
        entry_index(entry_at(i), from) == Some(i),
    decreases i - from,
{
    if from < i {
        direct_bindings_belong_together(i, from);
        entries_are_found(i, from + 1);
    }
}

/// A configured directory is seen from the home directory where it begins with `~`,
/// and is taken as written else.
pub proof fn configured_directories_expand(home: Seq<char>, rest: Seq<char>, dir: Seq<char>)
    ensures
        home_expanded("~"@, Some(home)) == home,
        home_expanded("~/"@ + rest, Some(home)) == joined(home, rest),
        dir.len() > 0 && dir[0] != '~' ==> home_expanded(dir, Some(home)) == dir,
        home_expanded(dir, None) == dir,
{
    reveal_strlit("~");
    reveal_strlit("~/");
    let typed = "~/"@ + rest;
    assert(typed.take(2) =~= "~/"@);
    assert(typed.skip(2) =~= rest);
    assert(typed.len() >= 2);
    if begins(dir, "~/"@) {
        assert(dir.take(2)[0] == '~');
    }
}

} // verus!
