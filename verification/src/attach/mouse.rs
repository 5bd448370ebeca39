//! The mouse: clicks and the wheel.

use vstd::prelude::*;

use crate::attach::app::{App, Cursor, Mode, MOUSE_SCROLL_STEP};
use crate::attach::geometry::{chip_at, chips_of, less, pane_over, rect_of, Chip};
use crate::attach::keys::scrolled_by;
use crate::attach::nav::{offset_of, scroll_left, scroll_moved, tab_asked, tab_selected};
use crate::attach::panel::{cursor_on, row_entered};
use crate::input::{
    encode_wheel, encode_wheel_arrows, repeated, wheel_arrow, wheel_bytes,
};
use crate::key::{MouseButton, MouseEventKind};
use crate::layout::Rect;
use crate::model::{tabs_of, PaneId};
use crate::protocol::{no_frames, nothing, only, sent, typed, Asked, Sent, WireFrame};
use crate::screen::{
    alternate_screen_after, application_cursor_after, fed, made_with, mouse_encoding_after,
    mouse_mode_after, Emulator, MouseProtocolEncoding, MouseProtocolMode,
};
use crate::sidebar::{divider_row, rows_do_not_overlap, top_row, Section, Sidebar};

verus! {

broadcast use {vstd::string::group_string_axioms, vstd::std_specs::hash::group_hash_axioms};

// ---- the tab bar ---------------------------------------------------------

/// What a click on the tab bar does: it selects the tab whose segment was hit,
/// or asks for a new one at the last segment.
pub open spec fn bar_clicked(pre: App, post: App, bar: Rect, col: u16, out: Seq<Sent>) -> bool {
    let chips = chips_of(tabs_of(pre.workspaces@));
    match chip_at(chips, 0, bar.x as int, col as int) {
        Some(i) => match chips[i].0 {
            Some(id) => tab_selected(pre, post, id, out),
            None => tab_asked(pre, post, out),
        },
        None => post == pre && out == nothing(),
    }
}

// ---- the sidebar ---------------------------------------------------------

/// The section whose header stands in a row of the sidebar.
pub open spec fn header_in(app: App, row: int) -> Option<Section> {
    if row == 0 {
        Some(Section::Projects)
    } else if row == divider_row(app.entries(), app.tree_len(), app.collapsed_projects) {
        Some(Section::Waiting)
    } else {
        None
    }
}

/// Whether entry `i` of the sidebar is drawn in that row.
pub open spec fn entry_in(app: App, row: int, i: int) -> bool {
    let top = top_row(app.entries(), app.tree_len(), app.collapsed_projects, i);
    0 <= i < app.entries().len() && app.row_shown(i) && (row == top || row == top + 1)
}

/// The client with a section opened or closed.
pub open spec fn toggled(app: App, section: Section) -> App {
    match section {
        Section::Projects => App { collapsed_projects: !app.collapsed_projects, ..app },
        Section::Waiting => App { collapsed_waiting: !app.collapsed_waiting, ..app },
    }
}

/// What a click on the sidebar does: it takes the keys; a header opens or
/// closes its section, and an entry is jumped to. While a prompt is edited
/// nothing happens.
pub open spec fn sidebar_clicked(
    pre: App,
    post: App,
    area: Rect,
    row: u16,
    out: Seq<Sent>,
) -> bool {
    let taken = if pre.in_sidebar_mode() {
        pre
    } else {
        App { mode: Mode::Sidebar, cursor: Cursor { selected: 0, anchor: None }, ..pre }
    };
    let rel = less(row as int, area.y as int);
    if pre.in_prompt_mode() {
        post == pre && out == nothing()
    } else if header_in(pre, rel) is Some {
        post == toggled(taken, header_in(pre, rel)->0) && out == nothing()
    } else {
        ||| exists|i: int| #[trigger]
            entry_in(pre, rel, i) && row_entered(
                App { cursor: cursor_on(taken, i), ..taken },
                post,
                out,
            )
        ||| (forall|i: int| !#[trigger] entry_in(pre, rel, i)) && post == taken && out == nothing()
    }
}

// ---- the wheel -----------------------------------------------------------

/// What a wheel tick sends to a pane's program, of which the terminal tells
/// these modes: the event itself where the program reports the mouse, arrow
/// keys on the alternate screen, and nothing else. `rect` is the pane's.
pub open spec fn routed(
    mode: MouseProtocolMode,
    encoding: MouseProtocolEncoding,
    alternate: bool,
    application_cursor: bool,
    rect: Option<Rect>,
    col: u16,
    row: u16,
    up: bool,
) -> Option<Seq<u8>> {
    if mode != MouseProtocolMode::Off {
        match rect {
            Some(rect) => Some(
                wheel_bytes(
                    encoding,
                    up,
                    cell_within(col, rect.x),
                    cell_within(row, rect.y),
                ),
            ),
            None => None,
        }
    } else if alternate {
        Some(repeated(wheel_arrow(application_cursor, up), MOUSE_SCROLL_STEP as nat))
    } else {
        None
    }
}

/// The place inside a pane's border, counted from 1.
pub open spec fn cell_within(at: u16, edge: u16) -> u16 {
    if at > edge {
        (at - edge) as u16
    } else {
        1
    }
}

/// What a wheel tick sends to the program in `pane`.
pub open spec fn wheel_input(app: App, pane: PaneId, col: u16, row: u16, up: bool) -> Option<
    Seq<u8>,
> {
    if app.panes@.contains_key(pane.0) {
        let screen = app.panes@[pane.0].parser;
        routed(
            mouse_mode_after(made_with(screen), fed(screen)),
            mouse_encoding_after(made_with(screen), fed(screen)),
            alternate_screen_after(made_with(screen), fed(screen)),
            application_cursor_after(made_with(screen), fed(screen)),
            rect_of(app.rects@, pane),
            col,
            row,
            up,
        )
    } else {
        None
    }
}

/// What a wheel tick does to a pane's scrollback: it is browsed a few lines
/// further back or forth, and no longer once the newest line is reached.
pub open spec fn browse_wheeled(pre: App, post: App, pane: PaneId, up: bool, out: Seq<Sent>) -> bool {
    let at = offset_of(pre, pane);
    let to = scrolled_by(
        at,
        if up {
            MOUSE_SCROLL_STEP as int
        } else {
            -(MOUSE_SCROLL_STEP as int)
        },
    );
    if to > 0 {
        scroll_moved(App { mode: Mode::Scroll(pane), ..pre }, post, pane, to, out)
    } else if at > 0 {
        scroll_left(pre, post, pane, out)
    } else {
        post == pre && out == nothing()
    }
}

/// What a wheel tick does: the pane under it is focused, and the tick goes to
/// its program or scrolls its scrollback. A pane whose scrollback is browsed
/// keeps the tick.
pub open spec fn wheeled(pre: App, post: App, col: u16, row: u16, up: bool, out: Seq<Sent>) -> bool {
    match pane_over(pre.rects@, col, row) {
        Some(pane) => {
            let focused = App { focused: Some(pane), ..pre };
            let browsed = pre.panes@.contains_key(pane.0) && pre.panes@[pane.0].scroll is Some;
            match wheel_input(pre, pane, col, row, up) {
                Some(bytes) if !browsed => post == focused && out == seq![
                    Sent::Input { pane, bytes },
                ],
                _ => browse_wheeled(focused, post, pane, up, out),
            }
        },
        None => post == pre && out == nothing(),
    }
}

// ---- every event ---------------------------------------------------------

/// Whether a cell lies in a rectangle, if there is one.
pub open spec fn hit(area: Option<Rect>, col: u16, row: u16) -> bool {
    area matches Some(r) && r.holds(col as int, row as int)
}

/// What a mouse event does.
pub open spec fn moused(
    pre: App,
    post: App,
    kind: MouseEventKind,
    col: u16,
    row: u16,
    out: Seq<Sent>,
) -> bool {
    match kind {
        MouseEventKind::Down(MouseButton::Left) => match pane_over(pre.rects@, col, row) {
            Some(pane) => {
                let focused = App { focused: Some(pane), ..pre };
                &&& post == if pre.mode == Mode::Prefix {
                    App { mode: Mode::Terminal, prefix_since: None, ..focused }
                } else {
                    focused
                }
                &&& out == nothing()
            },
            None => if hit(pre.sidebar_rect, col, row) {
                sidebar_clicked(pre, post, pre.sidebar_rect->0, row, out)
            } else if hit(pre.tab_bar_rect, col, row) {
                bar_clicked(pre, post, pre.tab_bar_rect->0, col, out)
            } else {
                post == pre && out == nothing()
            },
        },
        MouseEventKind::ScrollUp => wheeled(pre, post, col, row, true, out),
        MouseEventKind::ScrollDown => wheeled(pre, post, col, row, false, out),
        _ => post == pre && out == nothing(),
    }
}

/// What a wheel tick sends to a program in a terminal with these modes.
pub fn route_wheel(
    mode: MouseProtocolMode,
    encoding: MouseProtocolEncoding,
    alternate: bool,
    application_cursor: bool,
    rect: Option<Rect>,
    col: u16,
    row: u16,
    up: bool,
) -> (r: Option<Vec<u8>>)
    ensures
        (match r {
            Some(bytes) => Some(bytes@),
            None => None,
        }) == routed(mode, encoding, alternate, application_cursor, rect, col, row, up),
{
    if mode != MouseProtocolMode::Off {
        match rect {
            Some(rect) => {
                let x: u16 = if col > rect.x {
                    col - rect.x
                } else {
                    1
                };
                let y: u16 = if row > rect.y {
                    row - rect.y
                } else {
                    1
                };
                Some(encode_wheel(encoding, up, x, y))
            },
            None => None,
        }
    } else if alternate {
        Some(encode_wheel_arrows(application_cursor, up, MOUSE_SCROLL_STEP))
    } else {
        None
    }
}

impl App {
    fn forwarded_wheel(&self, pane: PaneId, col: u16, row: u16, up: bool) -> (r: Option<Vec<u8>>)
        ensures
            (match r {
                Some(bytes) => Some(bytes@),
                None => None,
            }) == wheel_input(*self, pane, col, row, up),
    {
        match self.panes.get(&pane.0) {
            Some(state) => {
                let screen: &Emulator = state.parser.screen();
                route_wheel(
                    screen.mouse_protocol_mode(),
                    screen.mouse_protocol_encoding(),
                    screen.alternate_screen(),
                    screen.application_cursor(),
                    self.rect_for(pane),
                    col,
                    row,
                    up,
                )
            },
            None => None,
        }
    }

    fn browse_wheel(&mut self, pane: PaneId, up: bool) -> (r: Vec<WireFrame>)
        ensures
            browse_wheeled(*old(self), *final(self), pane, up, sent(r@)),
    {
        let current: usize = self.scroll_offset(pane);
        let offset: usize = if up {
            current.saturating_add(MOUSE_SCROLL_STEP)
        } else {
            current.saturating_sub(MOUSE_SCROLL_STEP)
        };
        if offset > 0 {
            self.mode = Mode::Scroll(pane);
            self.scroll_to(pane, offset)
        } else if current > 0 {
            self.exit_scroll(pane)
        } else {
            no_frames()
        }
    }

    fn mouse_scroll(&mut self, col: u16, row: u16, up: bool) -> (r: Vec<WireFrame>)
        ensures
            wheeled(*old(self), *final(self), col, row, up, sent(r@)),
    {
        let pane: PaneId = match self.pane_at(col, row) {
            Some(pane) => pane,
            None => {
                return no_frames();
            },
        };
        let browsed: bool = match self.panes.get(&pane.0) {
            Some(state) => state.scroll.is_some(),
            None => false,
        };
        let input: Option<Vec<u8>> = self.forwarded_wheel(pane, col, row, up);
        self.focused = Some(pane);
        match input {
            Some(bytes) => if browsed {
                self.browse_wheel(pane, up)
            } else {
                typed(pane, bytes)
            },
            None => self.browse_wheel(pane, up),
        }
    }

    fn tab_bar_click(&mut self, bar: Rect, col: u16) -> (r: Vec<WireFrame>)
        ensures
            bar_clicked(*old(self), *final(self), bar, col, sent(r@)),
    {
        match self.chip_hit(bar.x, col) {
            Some(Some(id)) => self.select_tab(id),
            Some(None) => self.new_tab(),
            None => no_frames(),
        }
    }

    fn toggle_section(&mut self, section: Section)
        ensures
            *final(self) == toggled(*old(self), section),
    {
        match section {
            Section::Projects => self.collapsed_projects = !self.collapsed_projects,
            Section::Waiting => self.collapsed_waiting = !self.collapsed_waiting,
        }
    }

    fn sidebar_click(&mut self, area: Rect, row: u16) -> (r: Vec<WireFrame>)
        ensures
            sidebar_clicked(*old(self), *final(self), area, row, sent(r@)),
    {
        if self.sidebar_prompt_active() {
            return no_frames();
        }
        let sidebar: Sidebar = self.sidebar();
        if !self.sidebar_focused() {
            self.mode = Mode::Sidebar;
            self.cursor = Cursor { selected: 0, anchor: None };
        }
        let rel: usize = if row > area.y {
            (row - area.y) as usize
        } else {
            0
        };
        match sidebar.header_at_row(rel) {
            Some(section) => {
                self.toggle_section(section);
                return no_frames();
            },
            None => {},
        }
        let ghost pre = *old(self);
        match sidebar.entry_at_row(rel) {
            Some(idx) => {
                assert(entry_in(pre, rel as int, idx as int));
                self.select_entry(idx);
                self.jump_to_selected()
            },
            None => {
                assert forall|i: int| !#[trigger] entry_in(pre, rel as int, i) by {
                    if 0 <= i < sidebar.entries@.len() && sidebar.shown(i) {
                        assert(rel != sidebar.top(i) && rel != sidebar.top(i) + 1);
                    }
                }
                no_frames()
            },
        }
    }

    /// Handle a mouse event at a cell, returning what is to be sent to the
    /// server.
    pub fn on_mouse(&mut self, kind: MouseEventKind, col: u16, row: u16) -> (r: Vec<WireFrame>)
        ensures
            moused(*old(self), *final(self), kind, col, row, sent(r@)),
            old(self).well_formed() ==> final(self).well_formed(),
    {
        match kind {
            MouseEventKind::Down(MouseButton::Left) => {
                match self.pane_at(col, row) {
                    Some(pane) => {
                        self.focused = Some(pane);
                        if matches!(self.mode, Mode::Prefix) {
                            self.mode = Mode::Terminal;
                            self.prefix_since = None;
                        }
                        return no_frames();
                    },
                    None => {},
                }
                match self.sidebar_rect {
                    Some(area) => {
                        if area.contains(col, row) {
                            return self.sidebar_click(area, row);
                        }
                    },
                    None => {},
                }
                match self.tab_bar_rect {
                    Some(bar) => {
                        if bar.contains(col, row) {
                            return self.tab_bar_click(bar, col);
                        }
                    },
                    None => {},
                }
                no_frames()
            },
            MouseEventKind::ScrollUp => self.mouse_scroll(col, row, true),
            MouseEventKind::ScrollDown => self.mouse_scroll(col, row, false),
            _ => no_frames(),
        }
    }
}

// ---- laws ----------------------------------------------------------------

/// A row of the sidebar shows at most one entry, so a click has one outcome.
pub proof fn a_row_shows_one_entry(app: App, row: int, i: int, j: int)
    requires
        entry_in(app, row, i),
        entry_in(app, row, j),
    ensures
        i == j,
{
    if i < j {
        rows_do_not_overlap(app.entries(), app.tree_len(), app.collapsed_projects, i, j);
    } else if j < i {
        rows_do_not_overlap(app.entries(), app.tree_len(), app.collapsed_projects, j, i);
    }
}

/// A second click on a section's header undoes the first.
pub proof fn toggling_twice_changes_nothing(app: App, section: Section)
    ensures
        toggled(toggled(app, section), section) == app,
{
}

/// A wheel tick forth undoes one back.
pub proof fn wheeling_back_and_forth_returns(at: usize, n: int)
    requires
        0 <= n,
        at + n <= usize::MAX,
    ensures
        scrolled_by(scrolled_by(at, n), -n) == at,
{
}

/// A click focuses the pane under it, whichever cell of the pane it hits, and sends
/// nothing; whatever follows the prefix is then no longer waited for.
pub proof fn clicks_focus_the_pane_under_them(
    pre: App,
    post: App,
    i: int,
    col: u16,
    row: u16,
    out: Seq<Sent>,
)
    requires
        moused(pre, post, MouseEventKind::Down(MouseButton::Left), col, row, out),
        0 <= i < pre.rects@.len(),
        pre.rects@[i].1.x <= col < pre.rects@[i].1.x + pre.rects@[i].1.width,
        pre.rects@[i].1.y <= row < pre.rects@[i].1.y + pre.rects@[i].1.height,
        forall|j: int|
            0 <= j < i ==> !((#[trigger] pre.rects@[j]).1.x <= col < pre.rects@[j].1.x
                + pre.rects@[j].1.width && pre.rects@[j].1.y <= row < pre.rects@[j].1.y
                + pre.rects@[j].1.height),
    ensures
        post.focused == Some(pre.rects@[i].0),
        out == nothing(),
        pre.mode == Mode::Prefix ==> post.mode == Mode::Terminal && post.prefix_since is None,
        pre.mode != Mode::Prefix ==> post.mode == pre.mode,
{
    cell_lies_in_pane(pre.rects@, i, col, row);
}

proof fn cell_lies_in_pane(rects: Seq<(PaneId, Rect)>, i: int, col: u16, row: u16)
    requires
        0 <= i < rects.len(),
        rects[i].1.x <= col < rects[i].1.x + rects[i].1.width,
        rects[i].1.y <= row < rects[i].1.y + rects[i].1.height,
        forall|j: int|
            0 <= j < i ==> !((#[trigger] rects[j]).1.x <= col < rects[j].1.x + rects[j].1.width
                && rects[j].1.y <= row < rects[j].1.y + rects[j].1.height),
    ensures
        pane_over(rects, col, row) == Some(rects[i].0),
{
    let p = crate::attach::geometry::rect_holds(col, row);
    crate::model::found_is_first(rects, p, 0);
    assert(p(rects[i]));
    let k = crate::model::find_from(rects, p, 0)->0;
    if k < i {
        assert(p(rects[k]));
    }
}

/// A wheel tick is for the pane under it. Where its program neither takes the mouse
/// nor fills the screen, a tick up goes back through the scrollback and a tick down
/// towards the newest line, by as many lines; at the newest line the browsing ends.
pub proof fn the_wheel_goes_the_right_way(
    pre: App,
    post: App,
    i: int,
    col: u16,
    row: u16,
    up: bool,
    out: Seq<Sent>,
)
    requires
        moused(
            pre,
            post,
            if up {
                MouseEventKind::ScrollUp
            } else {
                MouseEventKind::ScrollDown
            },
            col,
            row,
            out,
        ),
        0 <= i < pre.rects@.len(),
        pre.rects@[i].1.x <= col < pre.rects@[i].1.x + pre.rects@[i].1.width,
        pre.rects@[i].1.y <= row < pre.rects@[i].1.y + pre.rects@[i].1.height,
        forall|j: int|
            0 <= j < i ==> !((#[trigger] pre.rects@[j]).1.x <= col < pre.rects@[j].1.x
                + pre.rects@[j].1.width && pre.rects@[j].1.y <= row < pre.rects@[j].1.y
                + pre.rects@[j].1.height),
        pre.panes@.contains_key(pre.rects@[i].0.0),
        pre.panes@[pre.rects@[i].0.0].scroll is Some || wheel_input(
            pre,
            pre.rects@[i].0,
            col,
            row,
            up,
        ) is None,
    ensures
        post.focused == Some(pre.rects@[i].0),
        ({
            let pane = pre.rects@[i].0;
            let was = offset_of(pre, pane);
            let is = offset_of(post, pane);
            &&& up && was < usize::MAX ==> is > was && post.mode == Mode::Scroll(pane)
            &&& up && was + MOUSE_SCROLL_STEP <= usize::MAX ==> is == was + MOUSE_SCROLL_STEP
            &&& !up && was > MOUSE_SCROLL_STEP ==> is == was - MOUSE_SCROLL_STEP && post.mode
                == Mode::Scroll(pane)
            &&& !up && 0 < was <= MOUSE_SCROLL_STEP ==> is == 0 && post.mode == Mode::Terminal
                && post.panes@[pane.0].scroll is None
            &&& !up && was == 0 ==> is == 0 && out == nothing()
        }),
{
    cell_lies_in_pane(pre.rects@, i, col, row);
}

/// A program that takes the mouse is told of a tick in the cell of its own screen
/// that it happened in, counted from 1 inside the pane's border; a program that fills
/// the screen gets arrow keys up for a tick up and down for one down; and any other
/// gets nothing.
pub proof fn programs_get_the_ticks_they_ask_for(
    mode: MouseProtocolMode,
    encoding: MouseProtocolEncoding,
    alternate: bool,
    application_cursor: bool,
    rect: Rect,
    col: u16,
    row: u16,
    up: bool,
)
    requires
        rect.x < col,
        rect.y < row,
    ensures
        mode != MouseProtocolMode::Off ==> routed(
            mode,
            encoding,
            alternate,
            application_cursor,
            Some(rect),
            col,
            row,
            up,
        ) == Some(wheel_bytes(encoding, up, (col - rect.x) as u16, (row - rect.y) as u16)),
        mode == MouseProtocolMode::Off && !alternate ==> routed(
            mode,
            encoding,
            alternate,
            application_cursor,
            Some(rect),
            col,
            row,
            up,
        ) is None,
        mode == MouseProtocolMode::Off && alternate ==> (routed(
            mode,
            encoding,
            alternate,
            application_cursor,
            Some(rect),
            col,
            row,
            up,
        ) matches Some(bytes) && bytes.len() == 3 * MOUSE_SCROLL_STEP && bytes.take(3) == seq![
            0x1bu8,
            if application_cursor {
                0x4fu8
            } else {
                0x5bu8
            },
            if up {
                0x41u8
            } else {
                0x42u8
            },
        ]),
{
    let arrow = wheel_arrow(application_cursor, up);
    reveal_with_fuel(repeated, 4);
    assert(repeated(arrow, 3) =~= arrow + arrow + arrow);
    assert(repeated(arrow, 3).take(3) =~= arrow);
}

/// A click on the tab bar selects the tab whose label it hits. The labels stand side
/// by side from the bar's left edge, a column apart, and after them comes the one
/// that asks for a new tab.
pub proof fn clicks_select_the_tab_under_them(
    pre: App,
    post: App,
    bar: Rect,
    i: int,
    col: u16,
    out: Seq<Sent>,
)
    requires
        bar_clicked(pre, post, bar, col, out),
        0 <= i <= tabs_of(pre.workspaces@).len(),
        forall|k: int|
            0 <= k <= tabs_of(pre.workspaces@).len() ==> (#[trigger] chips_of(
                tabs_of(pre.workspaces@),
            )[k]).1.len() < 0x1_0000,
        ({
            let chips = chips_of(tabs_of(pre.workspaces@));
            let from = bar.x + crate::attach::geometry::labels_len(chips, i) + i;
            from <= col < from + chips[i].1.len()
        }),
    ensures
        i < tabs_of(pre.workspaces@).len() ==> post.active_tab == Some(
            tabs_of(pre.workspaces@)[i].id,
        ) && out == only(Asked::TabSelect { id: tabs_of(pre.workspaces@)[i].id }),
        i == tabs_of(pre.workspaces@).len() ==> post == pre && out.len() == 1 && (out[0]
            matches Sent::Control(Asked::TabNew { .. })),
{
    let chips = chips_of(tabs_of(pre.workspaces@));
    chip_found(chips, 0, bar.x as int, i, col as int);
}

proof fn chip_found(chips: Seq<Chip>, k: int, x: int, i: int, col: int)
    requires
        0 <= k <= i < chips.len(),
        forall|j: int| 0 <= j < chips.len() ==> (#[trigger] chips[j]).1.len() < 0x1_0000,
        ({
            let from = x + crate::attach::geometry::labels_len(chips, i)
                - crate::attach::geometry::labels_len(chips, k) + (i - k);
            from <= col < from + chips[i].1.len()
        }),
    ensures
        chip_at(chips, k, x, col) == Some(i),
    decreases i - k,
{
    if k < i {
        labels_grow(chips, k + 1, i);
        chip_found(chips, k + 1, x + chips[k].1.len() + 1, i, col);
    }
}

proof fn labels_grow(chips: Seq<Chip>, a: int, b: int)
    requires
        0 <= a <= b,
    ensures
        crate::attach::geometry::labels_len(chips, a) <= crate::attach::geometry::labels_len(
            chips,
            b,
        ),
    decreases b - a,
{
    if a < b {
        labels_grow(chips, a, b - 1);
    }
}

/// What the mouse does without its left button or its wheel does nothing.
pub proof fn other_events_do_nothing(
    pre: App,
    post: App,
    kind: MouseEventKind,
    col: u16,
    row: u16,
    out: Seq<Sent>,
)
    requires
        moused(pre, post, kind, col, row, out),
        kind != MouseEventKind::Down(MouseButton::Left),
        kind != MouseEventKind::ScrollUp,
        kind != MouseEventKind::ScrollDown,
    ensures
        post == pre,
        out == nothing(),
{
}

/// A click on a header of the sidebar opens or closes its own section: the first row
/// the tree's, the divider's the queue's.
pub proof fn headers_toggle_their_section(app: App)
    ensures
        header_in(app, 0) == Some(Section::Projects),
        toggled(app, Section::Projects).collapsed_projects != app.collapsed_projects,
        toggled(app, Section::Projects).collapsed_waiting == app.collapsed_waiting,
        toggled(app, Section::Waiting).collapsed_waiting != app.collapsed_waiting,
        toggled(app, Section::Waiting).collapsed_projects == app.collapsed_projects,
{
}

/// A click on an entry of the sidebar does what Enter on it does: the client goes to
/// the agent's pane, or to the workspace's tab.
pub proof fn clicks_enter_the_row(
    pre: App,
    post: App,
    area: Rect,
    row: u16,
    i: int,
    out: Seq<Sent>,
)
    requires
        sidebar_clicked(pre, post, area, row, out),
        !pre.in_prompt_mode(),
        area.y <= row,
        header_in(pre, row - area.y) is None,
        entry_in(pre, row - area.y, i),
        pre.entries().len() <= usize::MAX,
    ensures
        post.mode == Mode::Terminal,
        pre.entries()[i] matches crate::sidebar::EntryLine::Agent(a) ==> post.focused == Some(
            a.pane,
        ) && post.active_tab == Some(a.tab),
        pre.entries()[i] matches crate::sidebar::EntryLine::Workspace(w) ==> post.active_tab
            == Some(w.jump_tab),
{
    let rel = row - area.y;
    let taken = if pre.in_sidebar_mode() {
        pre
    } else {
        App { mode: Mode::Sidebar, cursor: Cursor { selected: 0, anchor: None }, ..pre }
    };
    let k = choose|k: int| #[trigger]
        entry_in(pre, rel, k) && row_entered(
            App { cursor: cursor_on(taken, k), ..taken },
            post,
            out,
        );
    assert(entry_in(pre, rel, i));
    a_row_shows_one_entry(pre, rel, i, k);
    let at = App { cursor: cursor_on(taken, k), ..taken };
    assert(at.entries() == pre.entries());
    assert(at.cursor.selected == k);
}

} // verus!
