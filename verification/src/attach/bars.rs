//! The bars: the app bar with its tabs, the rule beneath it, the footer, and
//! the band of a status message.

use vstd::prelude::*;

use crate::attach::app::{App, Mode};
use crate::attach::geometry::{bar_rect, chip_lines, chips_of, less, Chip};
use crate::attach::look::{
    add_span, add_spans, add_text, bold, bold_style, bold_tint, bold_tinted, bar_shade, capped,
    chip, chip_style, chrome_bar, dim, dim_style, glyphs, glyphs_of, line_width, looks, no_spans,
    no_strokes, piece, plain, plain_style, put, put_line, put_shade, shaded, strokes, text_in, tint,
    tinted, width_of, Glyphs, Line, Paint, Span, SpanLook, Stroke, Style, Tone, ACCENT,
    add_line, line_looks, no_lines,
};
use crate::config::{binding_lines, bound_key, Config, Icons, PrefixAction};
use crate::key::{key_label, label_of};
use crate::layout::Rect;
use crate::model::{tabs_of, AgentState, TabId};
use crate::sidebar::AgentCensus;
use crate::text::{decimal, glue, glue3, has_text, holds, length, number, opt_str, repeat, times};

verus! {

broadcast use vstd::string::group_string_axioms;

/// What lies behind the bars and panels.
pub open spec fn bar_bg(app: App) -> Option<Tone> {
    if app.config.chrome_background && app.truecolor {
        Some(bar_shade())
    } else {
        None
    }
}

// ---- agents --------------------------------------------------------------

/// The style of what an agent does.
pub open spec fn state_look(state: AgentState) -> Style {
    match state {
        AgentState::Blocked => bold_tinted(Tone::Red),
        AgentState::Working => tinted(Tone::Yellow),
        AgentState::Done => tinted(Tone::Green),
        AgentState::Idle | AgentState::Unknown => dim_style(),
    }
}

/// The style of what an agent does.
pub fn state_style(state: AgentState) -> (r: Style)
    ensures
        r == state_look(state),
{
    match state {
        AgentState::Blocked => bold_tint(Tone::Red),
        AgentState::Working => tint(Tone::Yellow),
        AgentState::Done => tint(Tone::Green),
        AgentState::Idle | AgentState::Unknown => dim(),
    }
}

/// The dot of an agent: the spinner while it works.
pub open spec fn dot_of(state: AgentState, spinner: char, glyphs: Glyphs) -> char {
    match state {
        AgentState::Working => spinner,
        AgentState::Blocked => glyphs.blocked,
        AgentState::Done => glyphs.done,
        AgentState::Idle | AgentState::Unknown => glyphs.idle,
    }
}

/// The dot of an agent, and its style.
pub fn agent_dot(state: AgentState, spinner: char, glyphs: &Glyphs) -> (r: (char, Style))
    ensures
        r == (dot_of(state, spinner, *glyphs), state_look(state)),
{
    let dot: char = match state {
        AgentState::Working => spinner,
        AgentState::Blocked => glyphs.blocked,
        AgentState::Done => glyphs.done,
        AgentState::Idle | AgentState::Unknown => glyphs.idle,
    };
    (dot, state_style(state))
}

/// The count of agents in one state, where there are any.
pub open spec fn count_chip(n: usize, state: AgentState, spinner: char, glyphs: Glyphs) -> Seq<
    SpanLook,
> {
    if n == 0 {
        Seq::empty()
    } else {
        seq![
            piece(
                seq![' ', dot_of(state, spinner, glyphs)] + decimal(n as nat),
                state_look(state),
            ),
        ]
    }
}

/// The counts of agents that are blocked, work and are done.
pub open spec fn census_chips(c: AgentCensus, spinner: char, glyphs: Glyphs) -> Seq<SpanLook> {
    count_chip(c.blocked, AgentState::Blocked, spinner, glyphs) + count_chip(
        c.working,
        AgentState::Working,
        spinner,
        glyphs,
    ) + count_chip(c.done, AgentState::Done, spinner, glyphs)
}

fn add_count(spans: &mut Vec<Span>, n: usize, state: AgentState, spinner: char, glyphs: &Glyphs)
    ensures
        looks(final(spans)@) == looks(old(spans)@) + count_chip(n, state, spinner, *glyphs),
{
    if n > 0 {
        let (dot, style) = agent_dot(state, spinner, glyphs);
        let mut text: String = String::new();
        text.push(' ');
        text.push(dot);
        assert(text@ =~= seq![' ', dot]);
        text.append(number(n as u64).as_str());
        add_span(spans, text, style);
    }
    assert(looks(spans@) =~= looks(old(spans)@) + count_chip(n, state, spinner, *glyphs));
}

/// The counts of agents that are blocked, work and are done.
pub(crate) fn add_census(spans: &mut Vec<Span>, c: AgentCensus, spinner: char, glyphs: &Glyphs)
    ensures
        looks(final(spans)@) == looks(old(spans)@) + census_chips(c, spinner, *glyphs),
{
    add_count(spans, c.blocked, AgentState::Blocked, spinner, glyphs);
    add_count(spans, c.working, AgentState::Working, spinner, glyphs);
    add_count(spans, c.done, AgentState::Done, spinner, glyphs);
    assert(looks(spans@) =~= looks(old(spans)@) + census_chips(c, spinner, *glyphs));
}

// ---- the app bar ---------------------------------------------------------

/// The style of a tab's segment.
pub open spec fn segment_style(active: bool, is_new: bool) -> Style {
    if active {
        chip_style()
    } else if is_new {
        dim_style()
    } else {
        plain_style()
    }
}

/// The style of a tab's segment: an accent block for the active one, dim for
/// the one that makes a new tab.
pub fn tab_chip_style(active: bool, is_new: bool) -> (r: Style)
    ensures
        r == segment_style(active, is_new),
{
    if active {
        chip()
    } else if is_new {
        dim()
    } else {
        plain()
    }
}

/// The first `n` segments of the tab bar, a column apart.
pub open spec fn tab_spans(chips: Seq<Chip>, active: Option<TabId>, n: int) -> Seq<SpanLook>
    decreases n,
{
    if n <= 0 {
        Seq::empty()
    } else {
        let gap = if n > 1 {
            seq![piece(" "@, plain_style())]
        } else {
            Seq::empty()
        };
        let target = chips[n - 1].0;
        tab_spans(chips, active, n - 1) + gap + seq![
            piece(
                chips[n - 1].1,
                segment_style(target is Some && active == target, target is None),
            ),
        ]
    }
}

/// What the tab bar draws.
pub open spec fn tab_bar_strokes(app: App, area: Rect) -> Seq<Stroke> {
    let chips = chips_of(tabs_of(app.workspaces@));
    if area.width == 0 || area.height == 0 {
        no_strokes()
    } else {
        seq![text_in(area, seq![tab_spans(chips, app.active_tab, chips.len() as int)])]
    }
}

/// The left of the app bar: the name and the session, and how many agents need
/// attention.
pub open spec fn wordmark(app: App) -> Seq<SpanLook> {
    seq![
        piece("▍"@, tinted(ACCENT)),
        piece(
            if app.session@.len() == 0 {
                "tutti"@
            } else {
                "tutti — "@ + app.session@
            },
            bold_style(),
        ),
    ] + census_chips(app.census(), app.spinner(), glyphs_of(app.config.icons))
}

/// What the app bar draws.
pub open spec fn app_bar_strokes(app: App, area: Rect) -> Seq<Stroke> {
    if area.width == 0 || area.height == 0 {
        no_strokes()
    } else {
        shaded(area, bar_bg(app)) + seq![text_in(area, seq![wordmark(app)])] + tab_bar_strokes(
            app,
            bar_rect(chips_of(tabs_of(app.workspaces@)), area),
        )
    }
}

/// What the rule under the app bar draws.
pub open spec fn rule_strokes(app: App, area: Rect) -> Seq<Stroke> {
    if area.width == 0 || area.height == 0 {
        no_strokes()
    } else {
        shaded(area, bar_bg(app)) + seq![
            text_in(area, seq![seq![piece(times('─', area.width as int), dim_style())]]),
        ]
    }
}

// ---- hints ---------------------------------------------------------------

/// Keys with their labels, over characters.
pub open spec fn pairs_of(s: Seq<(String, &'static str)>) -> Seq<(Seq<char>, Seq<char>)> {
    Seq::new(s.len(), |i: int| (s[i].0@, s[i].1@))
}

/// The first `n` keys with their labels: keys bright, labels dim, dots between.
pub open spec fn tones(pairs: Seq<(Seq<char>, Seq<char>)>, n: int) -> Seq<SpanLook>
    decreases n,
{
    if n <= 0 {
        Seq::empty()
    } else {
        let dot = if n > 1 {
            seq![piece(" · "@, dim_style())]
        } else {
            Seq::empty()
        };
        tones(pairs, n - 1) + dot + seq![
            piece(pairs[n - 1].0, plain_style()),
            piece(" "@ + pairs[n - 1].1, dim_style()),
        ]
    }
}

/// How many characters that takes.
pub open spec fn tones_len(pairs: Seq<(Seq<char>, Seq<char>)>, n: int) -> int
    decreases n,
{
    if n <= 0 {
        0
    } else {
        tones_len(pairs, n - 1) + (if n > 1 {
            3int
        } else {
            0
        }) + pairs[n - 1].0.len() + 1 + pairs[n - 1].1.len()
    }
}

/// Keys with their labels: keys bright, labels dim, dots between; and how many
/// characters that takes.
pub fn two_tone(pairs: &[(String, &'static str)]) -> (r: (Vec<Span>, usize))
    ensures
        looks(r.0@) == tones(pairs_of(pairs@), pairs@.len() as int),
        r.1 == capped(tones_len(pairs_of(pairs@), pairs@.len() as int)),
{
    let ghost all = pairs_of(pairs@);
    let mut spans: Vec<Span> = no_spans();
    let mut width: usize = 0;
    for i in 0..pairs.len()
        invariant
            all == pairs_of(pairs@),
            looks(spans@) == tones(all, i as int),
            width == capped(tones_len(all, i as int)),
            tones_len(all, i as int) >= 0,
    {
        assert(all[i as int] == (pairs@[i as int].0@, pairs@[i as int].1@));
        let ghost had = looks(spans@);
        if i > 0 {
            add_text(&mut spans, " · ", dim());
            width = width.saturating_add(3);
        }
        let ghost dotted = looks(spans@);
        let (key, label) = &pairs[i];
        width = width.saturating_add(length(key.as_str())).saturating_add(1).saturating_add(
            length(*label),
        );
        add_text(&mut spans, key.as_str(), plain());
        add_span(&mut spans, glue(" ", *label), dim());
        assert(looks(spans@) =~= tones(all, i + 1));
    }
    (spans, width)
}

/// The widest hint that fits: all pairs, else the first, else nothing.
pub open spec fn fitted(pairs: Seq<(Seq<char>, Seq<char>)>, avail: u16) -> (Seq<SpanLook>, usize) {
    if capped(tones_len(pairs, pairs.len() as int)) <= avail {
        (tones(pairs, pairs.len() as int), capped(tones_len(pairs, pairs.len() as int)))
    } else if capped(tones_len(pairs, 1)) <= avail {
        (tones(pairs, 1), capped(tones_len(pairs, 1)))
    } else {
        (Seq::empty(), 0)
    }
}

/// The widest hint that fits, and its width.
pub fn fit_hint(pairs: &[(String, &'static str)], avail: u16) -> (r: (Vec<Span>, usize))
    ensures
        (looks(r.0@), r.1) == fitted(pairs_of(pairs@), avail),
        r.1 <= avail,
{
    let (spans, w) = two_tone(pairs);
    if w <= avail as usize {
        return (spans, w);
    }
    let first: &[(String, &'static str)] = vstd::slice::slice_subrange(pairs, 0, 1);
    let (spans, w) = two_tone(first);
    proof {
        reveal_with_fuel(tones, 2);
        reveal_with_fuel(tones_len, 2);
        assert(pairs_of(first@)[0] == pairs_of(pairs@)[0]);
        assert(tones(pairs_of(first@), 1) == tones(pairs_of(pairs@), 1));
        assert(tones_len(pairs_of(first@), 1) == tones_len(pairs_of(pairs@), 1));
    }
    if w <= avail as usize {
        (spans, w)
    } else {
        (no_spans(), 0)
    }
}

/// The keys that help and detach, behind the prefix.
pub open spec fn hint_pairs(cfg: Config) -> Seq<(Seq<char>, Seq<char>)> {
    let prefix = cfg.prefix.shown();
    (match bound_key(binding_lines(cfg.prefix_bindings@), PrefixAction::Help) {
        Some(k) => seq![(prefix + " "@ + label_of(k), "help"@)],
        None => Seq::empty(),
    }) + (match bound_key(binding_lines(cfg.prefix_bindings@), PrefixAction::Detach) {
        Some(k) => seq![(prefix + " "@ + label_of(k), "detach"@)],
        None => Seq::empty(),
    })
}

/// What the hint at the footer's right edge draws, with so many columns taken
/// on the left.
pub open spec fn hint_strokes(cfg: Config, area: Rect, left: usize) -> Seq<Stroke> {
    let pairs = hint_pairs(cfg);
    let fit = fitted(pairs, less(area.width as int, left + 1) as u16);
    if pairs.len() == 0 || fit.0.len() == 0 {
        no_strokes()
    } else {
        seq![
            text_in(
                Rect {
                    x: (area.x + area.width - fit.1) as u16,
                    y: area.y,
                    width: fit.1 as u16,
                    height: 1,
                },
                seq![fit.0],
            ),
        ]
    }
}

// ---- the footer ----------------------------------------------------------

/// The name of a mode; none of the one in which keys go to a pane.
pub open spec fn mode_word(mode: Mode) -> Option<Seq<char>> {
    match mode {
        Mode::Terminal => None,
        Mode::Prefix => Some("PREFIX"@),
        Mode::ConfirmKill(_) | Mode::ConfirmKillWorkspace(_) | Mode::ConfirmKillAgent(_)
        | Mode::ConfirmMerge(_) | Mode::ConfirmCleanup(_) => Some("CONFIRM"@),
        Mode::Scroll(_) => Some("SCROLL"@),
        Mode::Help => Some("HELP"@),
        Mode::Sidebar => Some("SIDEBAR"@),
        Mode::SidebarPrompt => Some("ADD PROJECT"@),
        Mode::SidebarWorkspaceName | Mode::SidebarWorkspaceDest => Some("WORKSPACE"@),
        Mode::Launcher | Mode::LauncherCommand => Some("RUN"@),
    }
}

/// The name of a mode; none of the one in which keys go to a pane.
pub fn mode_label(mode: Mode) -> (r: Option<&'static str>)
    ensures
        opt_str(r) == mode_word(mode),
{
    match mode {
        Mode::Terminal => None,
        Mode::Prefix => Some("PREFIX"),
        Mode::ConfirmKill(_) | Mode::ConfirmKillWorkspace(_) | Mode::ConfirmKillAgent(_)
        | Mode::ConfirmMerge(_) | Mode::ConfirmCleanup(_) => Some("CONFIRM"),
        Mode::Scroll(_) => Some("SCROLL"),
        Mode::Help => Some("HELP"),
        Mode::Sidebar => Some("SIDEBAR"),
        Mode::SidebarPrompt => Some("ADD PROJECT"),
        Mode::SidebarWorkspaceName | Mode::SidebarWorkspaceDest => Some("WORKSPACE"),
        Mode::Launcher | Mode::LauncherCommand => Some("RUN"),
    }
}

/// The keys of the sidebar.
pub open spec fn sidebar_hint() -> Seq<(Seq<char>, Seq<char>)> {
    seq![
        ("j/k"@, "move"@),
        ("enter"@, "jump"@),
        ("n"@, "new agent"@),
        ("a"@, "add project"@),
        ("d"@, "diff"@),
        ("w"@, "workspace"@),
        ("m"@, "merge"@),
        ("u"@, "update"@),
        ("x"@, "kill"@),
        ("esc"@, "back"@),
    ]
}

/// The left of the footer: the mode, and the sidebar's keys while it has them.
pub open spec fn footer_left(mode: Mode) -> Seq<SpanLook> {
    (match mode_word(mode) {
        Some(word) => seq![piece(" "@ + word + " "@, chip_style())],
        None => Seq::empty(),
    }) + (if mode == Mode::Sidebar {
        seq![piece("  "@, plain_style())] + tones(sidebar_hint(), sidebar_hint().len() as int)
    } else {
        Seq::empty()
    })
}

/// What the footer draws.
pub open spec fn footer_strokes(app: App, area: Rect) -> Seq<Stroke> {
    let left = footer_left(app.mode);
    shaded(area, bar_bg(app)) + (if width_of(left) > 0 {
        seq![text_in(area, seq![left])]
    } else {
        no_strokes()
    }) + hint_strokes(app.config, area, width_of(left))
}

/// What the band of a status message draws: red for an error, else the accent.
pub open spec fn band_strokes(message: Seq<char>, area: Rect) -> Seq<Stroke> {
    seq![
        Stroke::Wipe { area },
        Stroke::Text {
            area,
            lines: seq![seq![piece(message, bold_tinted(Tone::Black))]],
            centred: true,
            base: Style {
                bg: Some(
                    if holds(message, "error"@) {
                        Tone::Red
                    } else {
                        ACCENT
                    },
                ),
                ..plain_style()
            },
        },
    ]
}

fn sidebar_keys() -> (r: Vec<(String, &'static str)>)
    ensures
        pairs_of(r@) == sidebar_hint(),
{
    let r: Vec<(String, &'static str)> = vec![
        ("j/k".to_owned(), "move"),
        ("enter".to_owned(), "jump"),
        ("n".to_owned(), "new agent"),
        ("a".to_owned(), "add project"),
        ("d".to_owned(), "diff"),
        ("w".to_owned(), "workspace"),
        ("m".to_owned(), "merge"),
        ("u".to_owned(), "update"),
        ("x".to_owned(), "kill"),
        ("esc".to_owned(), "back"),
    ];
    assert(pairs_of(r@) =~= sidebar_hint());
    r
}

fn hint_keys(cfg: &Config) -> (r: Vec<(String, &'static str)>)
    ensures
        pairs_of(r@) == hint_pairs(*cfg),
{
    let prefix: String = cfg.prefix.label();
    let mut r: Vec<(String, &'static str)> = Vec::new();
    match cfg.prefix_key(PrefixAction::Help) {
        Some(k) => {
            r.push((glue3(prefix.as_str(), " ", key_label(k).as_str()), "help"));
        },
        None => {},
    }
    match cfg.prefix_key(PrefixAction::Detach) {
        Some(k) => {
            r.push((glue3(prefix.as_str(), " ", key_label(k).as_str()), "detach"));
        },
        None => {},
    }
    assert(pairs_of(r@) =~= hint_pairs(*cfg));
    r
}

impl App {
    pub(crate) fn bar_tone(&self) -> (r: Option<Tone>)
        ensures
            r == bar_bg(*self),
    {
        if self.chrome_shaded() {
            Some(chrome_bar())
        } else {
            None
        }
    }

    fn draw_tab_bar(&self, out: &mut Vec<Paint>, area: Rect)
        ensures
            strokes(final(out)@) == strokes(old(out)@) + tab_bar_strokes(*self, area),
    {
        if area.width == 0 || area.height == 0 {
            assert(strokes(out@) =~= strokes(old(out)@) + tab_bar_strokes(*self, area));
            return;
        }
        let chips: Vec<(Option<TabId>, String)> = self.tab_chips();
        let ghost all = chip_lines(chips@);
        let mut spans: Vec<Span> = no_spans();
        for i in 0..chips.len()
            invariant
                all == chip_lines(chips@),
                looks(spans@) == tab_spans(all, self.active_tab, i as int),
        {
            assert(all[i as int] == (chips@[i as int].0, chips@[i as int].1@));
            let ghost had = looks(spans@);
            if i > 0 {
                add_text(&mut spans, " ", plain());
            }
            let ghost spaced = looks(spans@);
            let target: Option<TabId> = chips[i].0;
            let active: bool = target.is_some() && self.active_tab == target;
            add_text(
                &mut spans,
                chips[i].1.as_str(),
                tab_chip_style(active, target.is_none()),
            );
            assert(looks(spans@) =~= tab_spans(all, self.active_tab, i + 1));
        }
        put_line(out, area, spans);
        assert(strokes(out@) =~= strokes(old(out)@) + tab_bar_strokes(*self, area));
    }

    pub(crate) fn draw_app_bar(&self, out: &mut Vec<Paint>, area: Rect)
        requires
            area.well_formed(),
        ensures
            strokes(final(out)@) == strokes(old(out)@) + app_bar_strokes(*self, area),
    {
        if area.width == 0 || area.height == 0 {
            assert(strokes(out@) =~= strokes(old(out)@) + app_bar_strokes(*self, area));
            return;
        }
        put_shade(out, area, self.bar_tone());
        let mut left: Vec<Span> = no_spans();
        add_text(&mut left, "▍", tint(ACCENT));
        let title: String = if self.session.as_str().is_empty() {
            "tutti".to_owned()
        } else {
            glue("tutti — ", self.session.as_str())
        };
        add_span(&mut left, title, bold());
        let set: Glyphs = glyphs(self.config.icons);
        add_census(&mut left, self.agent_census(), self.spinner_char(), &set);
        assert(looks(left@) =~= wordmark(*self));
        put_line(out, area, left);
        self.draw_tab_bar(out, self.tab_bar_rect(area));
        assert(strokes(out@) =~= strokes(old(out)@) + app_bar_strokes(*self, area));
    }

    pub(crate) fn draw_rule(&self, out: &mut Vec<Paint>, area: Rect)
        ensures
            strokes(final(out)@) == strokes(old(out)@) + rule_strokes(*self, area),
    {
        if area.width == 0 || area.height == 0 {
            assert(strokes(out@) =~= strokes(old(out)@) + rule_strokes(*self, area));
            return;
        }
        put_shade(out, area, self.bar_tone());
        let mut spans: Vec<Span> = no_spans();
        add_span(&mut spans, repeat('─', area.width as usize), dim());
        assert(looks(spans@) =~= seq![piece(times('─', area.width as int), dim_style())]);
        put_line(out, area, spans);
        assert(strokes(out@) =~= strokes(old(out)@) + rule_strokes(*self, area));
    }

    fn draw_hint(&self, out: &mut Vec<Paint>, area: Rect, left: usize)
        requires
            area.well_formed(),
        ensures
            strokes(final(out)@) == strokes(old(out)@) + hint_strokes(self.config, area, left),
    {
        let pairs: Vec<(String, &'static str)> = hint_keys(&self.config);
        if pairs.len() > 0 {
            let avail: u16 = if (area.width as usize) > left {
                area.width - 1 - left as u16
            } else {
                0
            };
            let (spans, w) = fit_hint(pairs.as_slice(), avail);
            if spans.len() > 0 {
                let rect: Rect = Rect {
                    x: area.x + area.width - w as u16,
                    y: area.y,
                    width: w as u16,
                    height: 1,
                };
                put_line(out, rect, spans);
            }
        }
        assert(strokes(out@) =~= strokes(old(out)@) + hint_strokes(self.config, area, left));
    }

    pub(crate) fn draw_footer(&self, out: &mut Vec<Paint>, area: Rect)
        requires
            area.well_formed(),
        ensures
            strokes(final(out)@) == strokes(old(out)@) + footer_strokes(*self, area),
    {
        put_shade(out, area, self.bar_tone());
        let mut spans: Vec<Span> = no_spans();
        match mode_label(self.mode) {
            Some(word) => {
                add_span(&mut spans, glue3(" ", word, " "), chip());
            },
            None => {},
        }
        if self.mode == Mode::Sidebar {
            add_text(&mut spans, "  ", plain());
            let keys: Vec<(String, &'static str)> = sidebar_keys();
            let (hint, _) = two_tone(keys.as_slice());
            add_spans(&mut spans, hint);
        }
        assert(looks(spans@) =~= footer_left(self.mode));
        let left: usize = line_width(&spans);
        if left > 0 {
            put_line(out, area, spans);
        }
        self.draw_hint(out, area, left);
        assert(strokes(out@) =~= strokes(old(out)@) + footer_strokes(*self, area));
    }
}

/// Draw the band of a status message.
pub(crate) fn draw_notification(out: &mut Vec<Paint>, message: &str, area: Rect)
    ensures
        strokes(final(out)@) == strokes(old(out)@) + band_strokes(message@, area),
{
    let bg: Tone = if has_text(message, "error") {
        Tone::Red
    } else {
        ACCENT
    };
    put(out, Paint::Wipe { area });
    let mut spans: Vec<Span> = no_spans();
    add_text(&mut spans, message, bold_tint(Tone::Black));
    assert(looks(spans@) =~= seq![piece(message@, bold_tinted(Tone::Black))]);
    let mut lines: Vec<Line> = no_lines();
    add_line(&mut lines, spans);
    assert(line_looks(lines@) =~= seq![seq![piece(message@, bold_tinted(Tone::Black))]]);
    let base: Style = Style { bg: Some(bg), ..plain() };
    put(out, Paint::Text { area, lines, centred: true, base });
    assert(strokes(out@) =~= strokes(old(out)@) + band_strokes(message@, area));
}

// ---- laws ----------------------------------------------------------------

/// What an agent does shows in its colour: blocked is red and loud, working yellow,
/// done green, and idle nothing but dim; no two of these look alike.
pub proof fn states_look_different(a: AgentState, b: AgentState)
    ensures
        state_look(AgentState::Blocked).fg == Some(Tone::Red),
        state_look(AgentState::Blocked).add_modifier.bold,
        state_look(AgentState::Working).fg == Some(Tone::Yellow),
        state_look(AgentState::Done).fg == Some(Tone::Green),
        state_look(AgentState::Idle).fg is None && state_look(AgentState::Idle).add_modifier.dim,
        state_look(a) == state_look(b) ==> a == b || (a != AgentState::Blocked && a
            != AgentState::Working && a != AgentState::Done),
{
}

/// A working agent spins, and its dot is the spinner's; any other shows its own
/// glyph: one that waits never that of one that idles.
pub proof fn dots_tell_states(state: AgentState, spinner: char, icons: Icons)
    ensures
        dot_of(AgentState::Working, spinner, glyphs_of(icons)) == spinner,
        state == AgentState::Blocked || state == AgentState::Done ==> dot_of(
            state,
            spinner,
            glyphs_of(icons),
        ) != dot_of(AgentState::Idle, spinner, glyphs_of(icons)),
        dot_of(AgentState::Blocked, spinner, glyphs_of(icons)) == glyphs_of(icons).blocked,
        dot_of(AgentState::Done, spinner, glyphs_of(icons)) == glyphs_of(icons).done,
        dot_of(AgentState::Idle, spinner, glyphs_of(icons)) == glyphs_of(icons).idle,
        dot_of(AgentState::Unknown, spinner, glyphs_of(icons)) == glyphs_of(icons).idle,
{
}

/// A census shows one count for each state that anyone is in, blocked before working
/// before done, each in its state's colour with its number, and none for a state that
/// no one is in.
pub proof fn every_count_is_shown(c: AgentCensus, spinner: char, glyphs: Glyphs)
    ensures
        ({
            let shown = census_chips(c, spinner, glyphs);
            let b: int = if c.blocked > 0 {
                1
            } else {
                0
            };
            let w: int = if c.working > 0 {
                1
            } else {
                0
            };
            let d: int = if c.done > 0 {
                1
            } else {
                0
            };
            &&& shown.len() == b + w + d
            &&& c.blocked > 0 ==> shown[0].style == state_look(AgentState::Blocked)
                && shown[0].content.skip(2) == decimal(c.blocked as nat)
            &&& c.working > 0 ==> shown[b].style == state_look(AgentState::Working)
                && shown[b].content.skip(2) == decimal(c.working as nat)
            &&& c.done > 0 ==> shown[b + w].style == state_look(AgentState::Done) && shown[b
                + w].content.skip(2) == decimal(c.done as nat)
        }),
{
    let shown = census_chips(c, spinner, glyphs);
    chip_counts(c.blocked, AgentState::Blocked, spinner, glyphs);
    chip_counts(c.working, AgentState::Working, spinner, glyphs);
    chip_counts(c.done, AgentState::Done, spinner, glyphs);
}

proof fn chip_counts(n: usize, state: AgentState, spinner: char, glyphs: Glyphs)
    ensures
        n == 0 ==> count_chip(n, state, spinner, glyphs).len() == 0,
        n > 0 ==> count_chip(n, state, spinner, glyphs).len() == 1 && count_chip(
            n,
            state,
            spinner,
            glyphs,
        )[0].style == state_look(state) && count_chip(n, state, spinner, glyphs)[0].content.skip(2)
            == decimal(n as nat),
{
    if n > 0 {
        let text = seq![' ', dot_of(state, spinner, glyphs)] + decimal(n as nat);
        assert(text.skip(2) =~= decimal(n as nat));
    }
}

/// Every tab has its label in the bar, in order, and just the active one stands out;
/// after them all comes the one that makes a new tab.
pub proof fn the_active_tab_stands_out(chips: Seq<Chip>, active: Option<TabId>, n: int, i: int)
    requires
        0 <= i < n <= chips.len(),
    ensures
        tab_spans(chips, active, n).len() == 2 * n - 1,
        tab_spans(chips, active, n)[2 * i].content == chips[i].1,
        (tab_spans(chips, active, n)[2 * i].style.bg is Some) == (chips[i].0 is Some && chips[i].0
            == active),
    decreases n,
{
    if n > 1 {
        tab_span_count(chips, active, n - 1);
        if i < n - 1 {
            the_active_tab_stands_out(chips, active, n - 1, i);
        }
    } else {
        assert(tab_spans(chips, active, 0) == Seq::<SpanLook>::empty());
    }
}

proof fn tab_span_count(chips: Seq<Chip>, active: Option<TabId>, n: int)
    requires
        n >= 1,
    ensures
        tab_spans(chips, active, n).len() == 2 * n - 1,
    decreases n,
{
    if n > 1 {
        tab_span_count(chips, active, n - 1);
    } else {
        assert(tab_spans(chips, active, 0) == Seq::<SpanLook>::empty());
    }
}

/// The bars are shaded only where the terminal can show it and the file allows it.
pub proof fn bars_are_shaded_where_both_agree(app: App)
    ensures
        (bar_bg(app) is Some) == (app.config.chrome_background && app.truecolor),
{
}

/// Each mode says what it is, and the one in which keys go to a pane says nothing;
/// modes that take keys in different ways are not called alike.
pub proof fn modes_are_named(mode: Mode)
    ensures
        (mode_word(mode) is None) == (mode == Mode::Terminal),
        mode == Mode::Prefix ==> mode_word(mode) == Some("PREFIX"@),
        mode is Scroll ==> mode_word(mode) == Some("SCROLL"@),
        mode == Mode::Help ==> mode_word(mode) == Some("HELP"@),
        mode == Mode::Sidebar ==> mode_word(mode) == Some("SIDEBAR"@),
        mode == Mode::SidebarPrompt ==> mode_word(mode) == Some("ADD PROJECT"@),
        mode == Mode::SidebarWorkspaceName ==> mode_word(mode) == Some("WORKSPACE"@),
        mode == Mode::Launcher ==> mode_word(mode) == Some("RUN"@),
        mode is ConfirmKill || mode is ConfirmKillWorkspace || mode is ConfirmMerge ==> mode_word(
            mode,
        ) == Some("CONFIRM"@),
{
}

/// A message that tells of an error is shown on red, and any other is not; the
/// message is shown as it is.
pub proof fn errors_are_red(message: Seq<char>, area: Rect)
    ensures
        band_strokes(message, area).len() == 2,
        band_strokes(message, area)[0] == (Stroke::Wipe { area }),
        band_strokes(message, area)[1] matches Stroke::Text { area: at, lines, centred, base } && at
            == area && centred && lines.len() == 1 && lines[0].len() == 1 && lines[0][0].content
            == message && (base.bg == Some(Tone::Red)) == holds(message, "error"@),
{
}

/// The app bar begins with the program's name, and names the session where there is
/// one; then come the counts of all agents.
pub proof fn the_app_bar_names_the_session(app: App)
    ensures
        ({
            let shown = wordmark(app);
            &&& shown.len() >= 2
            &&& app.session@.len() == 0 ==> shown[1].content == "tutti"@
            &&& app.session@.len() > 0 ==> shown[1].content == "tutti — "@ + app.session@
            &&& shown.skip(2) == census_chips(
                app.census(),
                app.spinner(),
                glyphs_of(app.config.icons),
            )
        }),
{
    assert(wordmark(app).skip(2) =~= census_chips(
        app.census(),
        app.spinner(),
        glyphs_of(app.config.icons),
    ));
}

/// The hint in the footer names keys that do what it says: the prefix, and behind it
/// a key that is bound to that.
pub proof fn hints_name_bound_keys(cfg: Config)
    ensures
        bound_key(binding_lines(cfg.prefix_bindings@), PrefixAction::Help) matches Some(k)
            ==> hint_pairs(cfg).len() > 0 && hint_pairs(cfg)[0] == (
            cfg.prefix.shown() + " "@ + label_of(k),
            "help"@,
        ),
        bound_key(binding_lines(cfg.prefix_bindings@), PrefixAction::Detach) matches Some(k)
            ==> hint_pairs(cfg).len() > 0 && hint_pairs(cfg).last() == (
            cfg.prefix.shown() + " "@ + label_of(k),
            "detach"@,
        ),
{
}

} // verus!
