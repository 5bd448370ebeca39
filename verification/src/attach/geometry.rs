//! Where everything stands on the screen, and how the focus moves about it.

use vstd::prelude::*;

use crate::attach::app::{App, Mode, HEADER_ROWS, SIDEBAR_MIN_TOTAL, SIDEBAR_WIDTH};
use crate::config::SidebarVisibility;
use crate::layout::{pane_rects, panes_lie_inside, shown_rects, Rect};
use crate::model::{
    find_from, found_is_first, tabs_in_front, tabs_of, PaneId, PaneInfo, TabId, TabView,
    WorkspaceView,
};
use crate::protocol::{control, sent, Asked, Request, Sent, WireFrame};
use crate::text::{decimal, glue3, length, number};

verus! {

broadcast use {vstd::string::group_string_axioms, vstd::std_specs::hash::group_hash_axioms};

// ---- regions -------------------------------------------------------------

/// The smaller of two numbers.
pub open spec fn least(a: int, b: int) -> int {
    if a <= b {
        a
    } else {
        b
    }
}

/// `a` less `b`, but not less than 0.
pub open spec fn less(a: int, b: int) -> int {
    if a >= b {
        a - b
    } else {
        0
    }
}

/// The content between the header and the footer of the screen `area`.
pub open spec fn content_of(area: Rect) -> Rect {
    Rect::at(
        area.x,
        (area.y + least(HEADER_ROWS as int, area.height as int)) as u16,
        area.width as int,
        less(area.height as int, HEADER_ROWS + 1),
    )
}

/// The footer: the last row of the screen `area`.
pub open spec fn footer_of(area: Rect) -> Rect {
    Rect::at(area.x, (area.y + less(area.height as int, 1)) as u16, area.width as int, 1)
}

/// The app bar: the first row of the screen `area`.
pub open spec fn app_bar_of(area: Rect) -> Rect {
    Rect::at(area.x, area.y, area.width as int, 1)
}

/// The rule beneath the app bar.
pub open spec fn rule_of(area: Rect) -> Rect {
    Rect::at(area.x, (area.y + least(1, area.height as int)) as u16, area.width as int, 1)
}

/// Whether a tab has a pane that runs an agent.
pub open spec fn tab_has_agent(t: TabView) -> bool {
    exists|i: int| 0 <= i < t.panes@.len() && (#[trigger] t.panes@[i]).agent is Some
}

/// Whether a workspace has a pane that runs an agent.
pub open spec fn workspace_has_agent(w: WorkspaceView) -> bool {
    exists|i: int| 0 <= i < w.tabs@.len() && tab_has_agent(#[trigger] w.tabs@[i])
}

/// Whether any pane runs an agent.
pub open spec fn any_agent(ws: Seq<WorkspaceView>) -> bool {
    exists|i: int| 0 <= i < ws.len() && workspace_has_agent(#[trigger] ws[i])
}

/// Whether the sidebar is drawn on a screen that wide: never on a narrow one,
/// always while it has the keys, and else as configured.
pub open spec fn sidebar_drawn(app: App, width: u16) -> bool {
    width >= SIDEBAR_MIN_TOTAL && (app.in_sidebar_mode() || match app.config.sidebar {
        SidebarVisibility::On => true,
        SidebarVisibility::Off => false,
        SidebarVisibility::Auto => app.workspaces@.len() > 1 || any_agent(app.workspaces@),
    })
}

/// The sidebar's column where it is drawn, and the region of the panes.
pub open spec fn regions_of(app: App, content: Rect) -> (Option<Rect>, Rect) {
    if sidebar_drawn(app, content.width) {
        (
            Some(Rect { width: SIDEBAR_WIDTH, ..content }),
            Rect {
                x: (content.x + SIDEBAR_WIDTH) as u16,
                width: (content.width - SIDEBAR_WIDTH) as u16,
                ..content
            },
        )
    } else {
        (None, content)
    }
}

fn has_agent(panes: &Vec<PaneInfo>) -> (r: bool)
    ensures
        r == exists|i: int| 0 <= i < panes@.len() && (#[trigger] panes@[i]).agent is Some,
{
    for i in 0..panes.len()
        invariant
            forall|j: int| 0 <= j < i ==> (#[trigger] panes@[j]).agent is None,
    {
        if panes[i].agent.is_some() {
            assert(panes@[i as int].agent is Some);
            return true;
        }
    }
    false
}

impl App {
    pub(crate) fn has_agent_pane(&self) -> (r: bool)
        ensures
            r == any_agent(self.workspaces@),
    {
        for i in 0..self.workspaces.len()
            invariant
                forall|j: int| 0 <= j < i ==> !workspace_has_agent(#[trigger] self.workspaces@[j]),
        {
            let tabs: &Vec<TabView> = &self.workspaces[i].tabs;
            for k in 0..tabs.len()
                invariant
                    i < self.workspaces@.len(),
                    tabs == &self.workspaces@[i as int].tabs,
                    forall|j: int| 0 <= j < k ==> !tab_has_agent(#[trigger] tabs@[j]),
            {
                if has_agent(&tabs[k].panes) {
                    assert(tab_has_agent(tabs@[k as int]));
                    assert(workspace_has_agent(self.workspaces@[i as int]));
                    return true;
                }
            }
        }
        false
    }

    fn sidebar_shown(&self, total_width: u16) -> (r: bool)
        ensures
            r == sidebar_drawn(*self, total_width),
    {
        if total_width < SIDEBAR_MIN_TOTAL {
            return false;
        }
        if self.sidebar_focused() {
            return true;
        }
        match self.config.sidebar {
            SidebarVisibility::On => true,
            SidebarVisibility::Off => false,
            SidebarVisibility::Auto => self.workspaces.len() > 1 || self.has_agent_pane(),
        }
    }

    /// The two regions of a content area: the sidebar's column where it is
    /// drawn, and the panes to its right.
    pub fn regions(&self, content: Rect) -> (r: (Option<Rect>, Rect))
        requires
            content.well_formed(),
        ensures
            r == regions_of(*self, content),
            r.1.well_formed(),
    {
        if !self.sidebar_shown(content.width) {
            return (None, content);
        }
        let w: u16 = SIDEBAR_WIDTH;
        let sidebar: Rect = Rect::new(content.x, content.y, w, content.height);
        let panes: Rect = Rect::new(content.x + w, content.y, content.width - w, content.height);
        (Some(sidebar), panes)
    }

    /// The content region of the screen `area`, and the footer.
    pub fn content_rect(area: Rect) -> (r: (Rect, Rect))
        requires
            area.well_formed(),
        ensures
            r == (content_of(area), footer_of(area)),
            r.0.well_formed(),
            r.1.well_formed(),
    {
        let top: u16 = if HEADER_ROWS <= area.height {
            HEADER_ROWS
        } else {
            area.height
        };
        let content_h: u16 = area.height.saturating_sub(HEADER_ROWS + 1);
        let content: Rect = Rect::new(area.x, area.y + top, area.width, content_h);
        let footer: Rect = Rect::new(area.x, area.y + area.height.saturating_sub(1), area.width, 1);
        (content, footer)
    }

    /// The app bar's row and the rule beneath it.
    pub fn header_rects(area: Rect) -> (r: (Rect, Rect))
        requires
            area.well_formed(),
        ensures
            r == (app_bar_of(area), rule_of(area)),
            r.0.well_formed(),
            r.1.well_formed(),
    {
        let down: u16 = if area.height >= 1 {
            1
        } else {
            0
        };
        (Rect::new(area.x, area.y, area.width, 1), Rect::new(area.x, area.y + down, area.width, 1))
    }
}

// ---- the tab bar ---------------------------------------------------------

/// One segment of the tab bar: the tab it selects, or none for a new one, and
/// its label.
pub type Chip = (Option<TabId>, Seq<char>);

/// The label of the `i`th tab.
pub open spec fn chip_label(i: int, name: Seq<char>) -> Seq<char> {
    " "@ + decimal((i + 1) as nat) + " "@ + name + " "@
}

/// The segments of the tab bar: one for each tab, then one for a new tab.
pub open spec fn chips_of(tabs: Seq<TabView>) -> Seq<Chip> {
    Seq::new(
        tabs.len(),
        |i: int| (Some(tabs[i].id), chip_label(i, tabs[i].name@)),
    ).push((None, " + "@))
}

/// The segments that a list of labels writes.
pub open spec fn chip_lines(s: Seq<(Option<TabId>, String)>) -> Seq<Chip> {
    s.map_values(|c: (Option<TabId>, String)| (c.0, c.1@))
}

/// How long the first `n` labels are together.
pub open spec fn labels_len(chips: Seq<Chip>, n: int) -> nat
    decreases n,
{
    if n <= 0 {
        0
    } else {
        labels_len(chips, n - 1) + chips[n - 1].1.len()
    }
}

/// The width of the tab bar: its labels and one column between two of them, as
/// far as a width can be told.
pub open spec fn bar_width(chips: Seq<Chip>) -> u16 {
    ((labels_len(chips, chips.len() as int) + less(chips.len() as int, 1)) % 0x1_0000) as u16
}

/// The tab bar's place at the right end of the app bar.
pub open spec fn bar_rect(chips: Seq<Chip>, app_bar: Rect) -> Rect {
    let w = least(bar_width(chips) as int, app_bar.width as int);
    Rect::at((app_bar.x + app_bar.width - w) as u16, app_bar.y, w, 1)
}

/// The segment from the `i`th on, which begins at column `x`, that holds the
/// column `col`.
pub open spec fn chip_at(chips: Seq<Chip>, i: int, x: int, col: int) -> Option<int>
    decreases chips.len() - i,
{
    if i < 0 || i >= chips.len() {
        None
    } else {
        let w = chips[i].1.len() as int % 0x1_0000;
        if x <= col < x + w {
            Some(i)
        } else {
            chip_at(chips, i + 1, x + w + 1, col)
        }
    }
}

/// A sum as far as a width can be told.
fn wrapped_sum(a: u16, n: usize) -> (r: u16)
    ensures
        forall|m: int|
            0 <= m && a == m % 0x1_0000 ==> r == (#[trigger] (m + n)) % 0x1_0000,
{
    ((a as u32 + (n % 0x1_0000) as u32) % 0x1_0000) as u16
}

impl App {
    /// The segments of the tab bar, from the left.
    pub fn tab_chips(&self) -> (r: Vec<(Option<TabId>, String)>)
        ensures
            chip_lines(r@) == chips_of(tabs_of(self.workspaces@)),
    {
        let mut chips: Vec<(Option<TabId>, String)> = Vec::new();
        let ghost all = tabs_of(self.workspaces@);
        let ghost f = |i: int| (Some(all[i].id), chip_label(i, all[i].name@));
        assert(self.workspaces@.take(0) =~= Seq::empty());
        proof {
            front_tabs(self.workspaces@, 0);
        }
        for i in 0..self.workspaces.len()
            invariant
                all == tabs_of(self.workspaces@),
                f == (|i: int| (Some(all[i].id), chip_label(i, all[i].name@))),
                chip_lines(chips@) == Seq::new(chips@.len(), f),
                chips@.len() == tabs_of(self.workspaces@.take(i as int)).len(),
        {
            let tabs: &Vec<TabView> = &self.workspaces[i].tabs;
            proof {
                front_tabs(self.workspaces@, i as int);
                front_tabs(self.workspaces@, i + 1);
                tabs_in_front(self.workspaces@, i as int);
            }
            let ghost before = tabs_of(self.workspaces@.take(i as int));
            for k in 0..tabs.len()
                invariant
                    f == (|i: int| (Some(all[i].id), chip_label(i, all[i].name@))),
                    chip_lines(chips@) == Seq::new(chips@.len(), f),
                    chips@.len() == before.len() + k,
                    before.len() + tabs@.len() <= all.len(),
                    forall|j: int|
                        0 <= j < tabs@.len() ==> all[before.len() + j] == #[trigger] tabs@[j],
            {
                let ghost have = chip_lines(chips@);
                chips.push((Some(tabs[k].id), String::new()));
                let n: usize = chips.len();
                let mut label: String = glue3(" ", number(n as u64).as_str(), " ");
                label.append(tabs[k].name.as_str());
                label.append(" ");
                assert(label@ == chip_label(n - 1, tabs@[k as int].name@));
                chips.set(n - 1, (Some(tabs[k].id), label));
                assert(all[before.len() + k] == tabs@[k as int]);
                assert(chip_lines(chips@) == have.push(f(n - 1)));
                assert(Seq::new(chips@.len(), f) == Seq::new((n - 1) as nat, f).push(f(n - 1)));
            }
        }
        assert(self.workspaces@.take(self.workspaces@.len() as int) == self.workspaces@);
        let ghost have = chip_lines(chips@);
        chips.push((None, " + ".to_owned()));
        assert(chip_lines(chips@) == have.push((None, " + "@)));
        chips
    }

    /// The width of the tab bar.
    fn tab_bar_width(&self) -> (r: u16)
        ensures
            r == bar_width(chips_of(tabs_of(self.workspaces@))),
    {
        let chips: Vec<(Option<TabId>, String)> = self.tab_chips();
        let ghost all = chip_lines(chips@);
        let mut width: u16 = 0;
        for i in 0..chips.len()
            invariant
                all == chip_lines(chips@),
                width == labels_len(all, i as int) % 0x1_0000,
        {
            assert(all[i as int].1 == chips@[i as int].1@);
            let n: usize = length(chips[i].1.as_str());
            width = wrapped_sum(width, n);
        }
        let seps: usize = chips.len().saturating_sub(1);
        wrapped_sum(width, seps)
    }

    /// The tab bar's place at the right end of the app bar.
    pub fn tab_bar_rect(&self, app_bar: Rect) -> (r: Rect)
        requires
            app_bar.well_formed(),
        ensures
            r == bar_rect(chips_of(tabs_of(self.workspaces@)), app_bar),
            r.well_formed(),
    {
        let full: u16 = self.tab_bar_width();
        let w: u16 = if full <= app_bar.width {
            full
        } else {
            app_bar.width
        };
        Rect::new(app_bar.x + (app_bar.width - w), app_bar.y, w, 1)
    }

    /// The segment of the tab bar at column `col`, where the bar begins at `x`.
    pub(crate) fn chip_hit(&self, x: u16, col: u16) -> (r: Option<Option<TabId>>)
        ensures
            match chip_at(chips_of(tabs_of(self.workspaces@)), 0, x as int, col as int) {
                Some(i) => r == Some(chips_of(tabs_of(self.workspaces@))[i].0),
                None => r is None,
            },
    {
        let chips: Vec<(Option<TabId>, String)> = self.tab_chips();
        let ghost all = chip_lines(chips@);
        let mut at: u64 = x as u64;
        for i in 0..chips.len()
            invariant
                all == chip_lines(chips@),
                all == chips_of(tabs_of(self.workspaces@)),
                at <= 0x1_0000 * (i + 1),
                chip_at(all, 0, x as int, col as int) == chip_at(all, i as int, at as int, col as int),
        {
            assert(all[i as int].1 == chips@[i as int].1@);
            if at > col as u64 {
                proof {
                    past_the_column(all, i as int, at as int, col as int);
                }
                return None;
            }
            let w: u64 = (length(chips[i].1.as_str()) % 0x1_0000) as u64;
            if col as u64 >= at && (col as u64) < at + w {
                return Some(chips[i].0);
            }
            at = at + w + 1;
        }
        None
    }
}

proof fn past_the_column(chips: Seq<Chip>, i: int, x: int, col: int)
    requires
        0 <= i,
        col < x,
    ensures
        chip_at(chips, i, x, col) is None,
    decreases chips.len() - i,
{
    if i < chips.len() {
        past_the_column(chips, i + 1, x + chips[i].1.len() as int % 0x1_0000 + 1, col);
    }
}

proof fn front_tabs(ws: Seq<WorkspaceView>, i: int)
    requires
        0 <= i <= ws.len(),
    ensures
        tabs_of(ws.take(i)).len() <= tabs_of(ws).len(),
        forall|j: int|
            0 <= j < tabs_of(ws.take(i)).len() ==> tabs_of(ws.take(i))[j] == #[trigger] tabs_of(
                ws,
            )[j],
    decreases ws.len() - i,
{
    if i == ws.len() {
        assert(ws.take(i) =~= ws);
    } else {
        tabs_in_front(ws, i);
        front_tabs(ws, i + 1);
        assert forall|j: int| 0 <= j < tabs_of(ws.take(i)).len() implies tabs_of(ws.take(i))[j]
            == #[trigger] tabs_of(ws)[j] by {
            assert(tabs_of(ws.take(i + 1))[j] == tabs_of(ws)[j]);
        }
    }
}

// ---- pane rectangles -----------------------------------------------------

/// The rectangles of the panes in a content area.
pub open spec fn rects_in(app: App, content: Rect) -> Seq<(PaneId, Rect)> {
    match app.tab() {
        Some(t) => match t.layout {
            Some(l) => shown_rects(
                l,
                regions_of(app, content).1,
                if app.zoom {
                    app.focused
                } else {
                    None
                },
            ),
            None => Seq::empty(),
        },
        None => Seq::empty(),
    }
}

/// The rows and columns inside a pane's rectangle: less its title and border,
/// but at least one.
pub open spec fn inner_of(rect: Rect) -> (u16, u16) {
    (
        if rect.height > 3 {
            (rect.height - 3) as u16
        } else {
            1
        },
        if rect.width > 2 {
            (rect.width - 2) as u16
        } else {
            1
        },
    )
}

/// The sizes asked for once the first `n` panes are seen to.
pub open spec fn sizes_after(
    sizes: Map<u64, (u16, u16)>,
    rects: Seq<(PaneId, Rect)>,
    n: int,
) -> Map<u64, (u16, u16)>
    decreases n,
{
    if n <= 0 {
        sizes
    } else {
        sizes_after(sizes, rects, n - 1).insert(rects[n - 1].0.0, inner_of(rects[n - 1].1))
    }
}

/// The requests for those of the first `n` panes whose size has changed.
pub open spec fn resizes(sizes: Map<u64, (u16, u16)>, rects: Seq<(PaneId, Rect)>, n: int) -> Seq<
    Sent,
>
    decreases n,
{
    if n <= 0 {
        Seq::empty()
    } else {
        let rest = resizes(sizes, rects, n - 1);
        let have = sizes_after(sizes, rects, n - 1);
        let pane = rects[n - 1].0;
        let size = inner_of(rects[n - 1].1);
        if have.contains_key(pane.0) && have[pane.0] == size {
            rest
        } else {
            rest.push(
                Sent::Control(Asked::PaneResize { pane, rows: size.0, cols: size.1 }),
            )
        }
    }
}

pub(crate) fn inner_size(rect: Rect) -> (r: (u16, u16))
    ensures
        r == inner_of(rect),
{
    let rows: u16 = if rect.height > 3 {
        rect.height - 3
    } else {
        1
    };
    let cols: u16 = if rect.width > 2 {
        rect.width - 2
    } else {
        1
    };
    (rows, cols)
}

/// That a rectangle is the pane `id`'s.
pub open spec fn rect_is(id: PaneId) -> spec_fn((PaneId, Rect)) -> bool {
    |p: (PaneId, Rect)| p.0 == id
}

/// That a rectangle holds a cell.
pub open spec fn rect_holds(col: u16, row: u16) -> spec_fn((PaneId, Rect)) -> bool {
    |p: (PaneId, Rect)| p.1.holds(col as int, row as int)
}

/// The rectangle of the pane `id`.
pub open spec fn rect_of(rects: Seq<(PaneId, Rect)>, id: PaneId) -> Option<Rect> {
    match find_from(rects, rect_is(id), 0) {
        Some(i) => Some(rects[i].1),
        None => None,
    }
}

/// The pane at a cell.
pub open spec fn pane_over(rects: Seq<(PaneId, Rect)>, col: u16, row: u16) -> Option<PaneId> {
    match find_from(rects, rect_holds(col, row), 0) {
        Some(i) => Some(rects[i].0),
        None => None,
    }
}

impl App {
    /// The rectangles of the panes in a content area.
    pub fn compute_rects(&self, content: Rect) -> (r: Vec<(PaneId, Rect)>)
        requires
            content.well_formed(),
        ensures
            r@ == rects_in(*self, content),
            forall|i: int| 0 <= i < r@.len() ==> (#[trigger] r@[i]).1.inside(content),
    {
        let (_, panes) = self.regions(content);
        let zoom: Option<PaneId> = if self.zoom {
            self.focused
        } else {
            None
        };
        match self.active_tab_view() {
            Some(t) => match &t.layout {
                Some(l) => pane_rects(l, panes, zoom),
                None => Vec::new(),
            },
            None => Vec::new(),
        }
    }

    /// Work out the rectangles for the screen `area`, and ask for the size of
    /// every pane whose size has changed.
    pub fn sync_sizes(&mut self, area: Rect) -> (r: Vec<WireFrame>)
        requires
            area.well_formed(),
        ensures
            *final(self) == (App {
                last_content_width: content_of(area).width,
                sidebar_rect: regions_of(*old(self), content_of(area)).0,
                tab_bar_rect: Some(
                    bar_rect(chips_of(tabs_of(old(self).workspaces@)), app_bar_of(area)),
                ),
                rects: final(self).rects,
                requested_sizes: final(self).requested_sizes,
                ..*old(self)
            }),
            final(self).rects@ == rects_in(*old(self), content_of(area)),
            final(self).requested_sizes@ == sizes_after(
                old(self).requested_sizes@,
                final(self).rects@,
                final(self).rects@.len() as int,
            ),
            sent(r@) == resizes(
                old(self).requested_sizes@,
                final(self).rects@,
                final(self).rects@.len() as int,
            ),
    {
        let (content, _) = App::content_rect(area);
        let (app_bar, _) = App::header_rects(area);
        let (sidebar_rect, _) = self.regions(content);
        let bar: Rect = self.tab_bar_rect(app_bar);
        let rects: Vec<(PaneId, Rect)> = self.compute_rects(content);
        self.last_content_width = content.width;
        self.sidebar_rect = sidebar_rect;
        self.tab_bar_rect = Some(bar);
        let mut out: Vec<WireFrame> = Vec::new();
        let ghost sizes = self.requested_sizes@;
        let ghost all = rects@;
        let ghost pre = *self;
        assert(sent(out@) == Seq::<Sent>::empty());
        for i in 0..rects.len()
            invariant
                all == rects@,
                *self == (App { requested_sizes: self.requested_sizes, ..pre }),
                self.requested_sizes@ == sizes_after(sizes, all, i as int),
                sent(out@) == resizes(sizes, all, i as int),
        {
            let (pane, rect) = rects[i];
            let (rows, cols) = inner_size(rect);
            let same: bool = match self.requested_sizes.get(&pane.0) {
                Some(size) => size.0 == rows && size.1 == cols,
                None => false,
            };
            let ghost have = sent(out@);
            if same {
                assert(self.requested_sizes@.insert(pane.0, (rows, cols)) =~= self.requested_sizes@);
            } else {
                self.requested_sizes.insert(pane.0, (rows, cols));
                out.push(control(Request::PaneResize { pane, rows, cols }));
                assert(sent(out@) == have.push(out@.last()@));
            }
        }
        self.rects = rects;
        out
    }

    /// The pane at a cell.
    pub fn pane_at(&self, col: u16, row: u16) -> (r: Option<PaneId>)
        ensures
            r == pane_over(self.rects@, col, row),
    {
        for i in 0..self.rects.len()
            invariant
                find_from(self.rects@, rect_holds(col, row), 0) == find_from(
                    self.rects@,
                    rect_holds(col, row),
                    i as int,
                ),
        {
            if self.rects[i].1.contains(col, row) {
                return Some(self.rects[i].0);
            }
        }
        None
    }

    /// The rectangle of a pane.
    pub(crate) fn rect_for(&self, pane: PaneId) -> (r: Option<Rect>)
        ensures
            r == rect_of(self.rects@, pane),
    {
        for i in 0..self.rects.len()
            invariant
                find_from(self.rects@, rect_is(pane), 0) == find_from(
                    self.rects@,
                    rect_is(pane),
                    i as int,
                ),
        {
            if self.rects[i].0 == pane {
                return Some(self.rects[i].1);
            }
        }
        None
    }

    /// The rows inside a pane; 0 where it is not on the screen.
    pub(crate) fn inner_rows(&self, pane: PaneId) -> (r: u16)
        ensures
            r == (match rect_of(self.rects@, pane) {
                Some(rect) => inner_of(rect).0,
                None => 0,
            }),
    {
        match self.rect_for(pane) {
            Some(rect) => inner_size(rect).0,
            None => 0,
        }
    }
}

// ---- the focus -----------------------------------------------------------

/// A direction in which the focus moves.
#[derive(Debug, Clone, Copy, PartialEq, Eq, Structural)]
pub enum FocusDir {
    Left,
    Right,
    Up,
    Down,
}

impl FocusDir {
    /// Whether `to` lies in this direction from `from`; the two may overlap by
    /// one cell.
    pub open spec fn admits(self, from: Rect, to: Rect) -> bool {
        match self {
            FocusDir::Left => to.x + to.width <= from.x + 1,
            FocusDir::Right => to.x + 1 >= from.x + from.width,
            FocusDir::Up => to.y + to.height <= from.y + 1,
            FocusDir::Down => to.y + 1 >= from.y + from.height,
        }
    }

    fn accepts(self, from: Rect, to: Rect) -> (r: bool)
        ensures
            r == self.admits(from, to),
    {
        match self {
            FocusDir::Left => to.x as u32 + to.width as u32 <= from.x as u32 + 1,
            FocusDir::Right => to.x as u32 + 1 >= from.x as u32 + from.width as u32,
            FocusDir::Up => to.y as u32 + to.height as u32 <= from.y as u32 + 1,
            FocusDir::Down => to.y as u32 + 1 >= from.y as u32 + from.height as u32,
        }
    }
}

/// The square of the distance between two numbers.
pub open spec fn gap_squared(a: int, b: int) -> int {
    (a - b) * (a - b)
}

/// The square of the distance between the middles of two rectangles.
pub open spec fn distance(a: Rect, b: Rect) -> int {
    gap_squared(a.x + a.width / 2, b.x + b.width / 2) + gap_squared(
        a.y + a.height / 2,
        b.y + b.height / 2,
    )
}

/// Whether the `i`th rectangle is one that the focus can move to.
pub open spec fn reachable(
    rects: Seq<(PaneId, Rect)>,
    current: PaneId,
    from: Rect,
    dir: FocusDir,
    i: int,
) -> bool {
    0 <= i < rects.len() && rects[i].0 != current && dir.admits(from, rects[i].1)
}

/// Whether the `i`th rectangle is the one that the focus moves to: the nearest
/// of those in that direction, and the first of them.
pub open spec fn nearest(
    rects: Seq<(PaneId, Rect)>,
    current: PaneId,
    from: Rect,
    dir: FocusDir,
    i: int,
) -> bool {
    &&& reachable(rects, current, from, dir, i)
    &&& forall|j: int| #[trigger]
        reachable(rects, current, from, dir, j) ==> distance(from, rects[i].1) <= distance(
            from,
            rects[j].1,
        ) && (j < i ==> distance(from, rects[i].1) < distance(from, rects[j].1))
}

fn squared_gap(a: u32, b: u32) -> (r: u64)
    requires
        a <= 0x2_0000,
        b <= 0x2_0000,
    ensures
        r == gap_squared(a as int, b as int),
        r <= 0x4_0000_0000,
{
    let d: u64 = if a >= b {
        (a - b) as u64
    } else {
        (b - a) as u64
    };
    assert(d * d <= 0x4_0000_0000) by (nonlinear_arith)
        requires
            d <= 0x2_0000,
    ;
    assert(d * d == gap_squared(a as int, b as int)) by (nonlinear_arith)
        requires
            d == a - b || d == b - a,
    ;
    d * d
}

fn distance_between(a: Rect, b: Rect) -> (r: u64)
    ensures
        r == distance(a, b),
{
    squared_gap(a.x as u32 + (a.width / 2) as u32, b.x as u32 + (b.width / 2) as u32) + squared_gap(
        a.y as u32 + (a.height / 2) as u32,
        b.y as u32 + (b.height / 2) as u32,
    )
}

/// That a pane is `id`.
pub open spec fn pane_is(id: PaneId) -> spec_fn(PaneId) -> bool {
    |p: PaneId| p == id
}

/// The focus that a client has once its tab or its panes have changed: the one
/// it had where that is still there, else the tab's active pane, else its first.
pub open spec fn focus_kept(app: App) -> Option<PaneId> {
    let panes = app.tab_panes();
    if app.focused is Some && panes.contains(app.focused->0) {
        app.focused
    } else if app.tab() is Some && app.tab()->0.active_pane is Some && panes.contains(
        app.tab()->0.active_pane->0,
    ) {
        app.tab()->0.active_pane
    } else if panes.len() > 0 {
        Some(panes[0])
    } else {
        None
    }
}

/// The client with its focus put right.
pub open spec fn refocused(app: App) -> App {
    App {
        focused: focus_kept(app),
        zoom: app.zoom && focus_kept(app) is Some,
        ..app
    }
}

/// The client once it is at the tab `id`.
pub open spec fn at_tab(app: App, id: TabId) -> App {
    refocused(App { active_tab: Some(id), zoom: false, ..app })
}

fn find_pane(panes: &Vec<PaneId>, id: PaneId) -> (r: Option<usize>)
    ensures
        match r {
            Some(i) => find_from(panes@, pane_is(id), 0) == Some(i as int) && i < panes@.len(),
            None => find_from(panes@, pane_is(id), 0) is None,
        },
        r is Some == panes@.contains(id),
{
    for i in 0..panes.len()
        invariant
            find_from(panes@, pane_is(id), 0) == find_from(panes@, pane_is(id), i as int),
            forall|j: int| 0 <= j < i ==> panes@[j] != id,
    {
        if panes[i] == id {
            return Some(i);
        }
    }
    None
}

impl App {
    /// Put the focus right once the tab or the panes have changed.
    pub(crate) fn refocus(&mut self)
        ensures
            *final(self) == refocused(*old(self)),
    {
        let panes: Vec<PaneId> = self.active_tab_panes();
        let kept: bool = match self.focused {
            Some(f) => find_pane(&panes, f).is_some(),
            None => false,
        };
        if !kept {
            let active: Option<PaneId> = match self.active_tab_view() {
                Some(t) => t.active_pane,
                None => None,
            };
            let next: Option<PaneId> = match active {
                Some(p) => if find_pane(&panes, p).is_some() {
                    Some(p)
                } else if panes.len() > 0 {
                    Some(panes[0])
                } else {
                    None
                },
                None => if panes.len() > 0 {
                    Some(panes[0])
                } else {
                    None
                },
            };
            self.focused = next;
        }
        if self.focused.is_none() {
            self.zoom = false;
        }
    }

    /// Focus the next pane of the tab, around and around.
    pub(crate) fn focus_cycle(&mut self)
        ensures
            old(self).tab_panes().len() == 0 ==> *final(self) == *old(self),
            old(self).tab_panes().len() > 0 ==> *final(self) == (App {
                focused: Some(
                    old(self).tab_panes()[next_in(old(self).tab_panes(), old(self).focused)],
                ),
                ..*old(self)
            }),
    {
        let panes: Vec<PaneId> = self.active_tab_panes();
        if panes.len() == 0 {
            return;
        }
        let current: usize = match self.focused {
            Some(f) => match find_pane(&panes, f) {
                Some(i) => i,
                None => 0,
            },
            None => 0,
        };
        let next: usize = if current + 1 < panes.len() {
            current + 1
        } else {
            0
        };
        assert(next as int == (current + 1) % panes@.len() as int) by {
            if current + 1 == panes@.len() {
                vstd::arithmetic::div_mod::lemma_mod_self_0(panes@.len() as int);
            } else {
                vstd::arithmetic::div_mod::lemma_small_mod((current + 1) as nat, panes@.len());
            }
        }
        self.focused = Some(panes[next]);
    }

    /// Move the focus to the nearest pane in `dir`. Tells whether it moved.
    pub(crate) fn move_focus(&mut self, dir: FocusDir) -> (r: bool)
        ensures
            moved(*old(self), *final(self), dir, r),
    {
        let current: PaneId = match self.focused {
            Some(p) => p,
            None => {
                return false;
            },
        };
        let from: Rect = match self.rect_for(current) {
            Some(r) => r,
            None => {
                return false;
            },
        };
        let mut best: Option<usize> = None;
        let mut least: u64 = 0;
        let ghost rects = self.rects@;
        for i in 0..self.rects.len()
            invariant
                rects == self.rects@,
                match best {
                    None => forall|j: int|
                        j < i ==> !#[trigger] reachable(rects, current, from, dir, j),
                    Some(b) => {
                        &&& b < i
                        &&& reachable(rects, current, from, dir, b as int)
                        &&& least == distance(from, rects[b as int].1)
                        &&& forall|j: int|
                            j < i && #[trigger] reachable(rects, current, from, dir, j) ==> least
                                <= distance(from, rects[j].1) && (j < b ==> least < distance(
                                from,
                                rects[j].1,
                            ))
                    },
                },
        {
            let (pane, rect) = self.rects[i];
            if pane != current && dir.accepts(from, rect) {
                let d: u64 = distance_between(from, rect);
                assert(reachable(rects, current, from, dir, i as int));
                let better: bool = match best {
                    None => true,
                    Some(_) => d < least,
                };
                if better {
                    best = Some(i);
                    least = d;
                }
            }
        }
        match best {
            Some(b) => {
                assert(nearest(rects, current, focus_rect(*self)->0, dir, b as int));
                self.focused = Some(self.rects[b].0);
                true
            },
            None => false,
        }
    }
}

/// The place after that of `focused`, around and around; the second where it is
/// not there.
pub open spec fn next_in(panes: Seq<PaneId>, focused: Option<PaneId>) -> int {
    let current = match focused {
        Some(f) => match find_from(panes, pane_is(f), 0) {
            Some(i) => i,
            None => 0,
        },
        None => 0,
    };
    (current + 1) % panes.len() as int
}

/// What a move of the focus does: it goes to the nearest pane in that
/// direction, where there is one, and stays where it is at the edge.
pub open spec fn moved(pre: App, post: App, dir: FocusDir, told: bool) -> bool {
    if told {
        &&& focus_rect(pre) is Some
        &&& exists|i: int|
            #[trigger] nearest(pre.rects@, pre.focused->0, focus_rect(pre)->0, dir, i) && post == (
            App { focused: Some(pre.rects@[i].0), ..pre })
    } else {
        &&& post == pre
        &&& focus_rect(pre) is Some ==> forall|i: int|
            !#[trigger] reachable(pre.rects@, pre.focused->0, focus_rect(pre)->0, dir, i)
    }
}

/// The rectangle of the focused pane.
pub open spec fn focus_rect(app: App) -> Option<Rect> {
    match app.focused {
        Some(p) => rect_of(app.rects@, p),
        None => None,
    }
}

// ---- laws ----------------------------------------------------------------

/// There is at most one nearest pane, so a move of the focus has one outcome.
pub proof fn nearest_is_unique(
    rects: Seq<(PaneId, Rect)>,
    current: PaneId,
    from: Rect,
    dir: FocusDir,
    i: int,
    j: int,
)
    requires
        nearest(rects, current, from, dir, i),
        nearest(rects, current, from, dir, j),
    ensures
        i == j,
{
    assert(reachable(rects, current, from, dir, i));
    assert(reachable(rects, current, from, dir, j));
}

/// The focus is a pane of the active tab, or there is none to focus.
pub proof fn focus_is_valid(app: App)
    ensures
        match refocused(app).focused {
            Some(p) => app.tab_panes().contains(p),
            None => app.tab_panes().len() == 0 && !refocused(app).zoom,
        },
        refocused(app).tab_panes() == app.tab_panes(),
        refocused(refocused(app)) == refocused(app),
{
    let panes = app.tab_panes();
    if panes.len() > 0 {
        assert(panes.contains(panes[0]));
    }
    assert(refocused(app).tab() == app.tab());
}

/// Cycling through a tab's panes reaches each of them: from the `i`th one the
/// next is the one after it, and from the last one the first.
pub proof fn cycling_goes_around(panes: Seq<PaneId>, i: int)
    requires
        0 <= i < panes.len(),
        panes.no_duplicates(),
    ensures
        next_in(panes, Some(panes[i])) == (if i + 1 < panes.len() {
            i + 1
        } else {
            0
        }),
{
    found_is_first(panes, pane_is(panes[i]), 0);
    if i + 1 < panes.len() {
        vstd::arithmetic::div_mod::lemma_small_mod((i + 1) as nat, panes.len());
    } else {
        vstd::arithmetic::div_mod::lemma_mod_self_0(panes.len() as int);
    }
}

/// The content and the footer do not overlap, and together with the header they
/// fill the screen, on any screen that has room for them.
pub proof fn regions_fill_the_screen(area: Rect)
    requires
        area.well_formed(),
        area.height > HEADER_ROWS,
    ensures
        app_bar_of(area).height == 1,
        rule_of(area).y == app_bar_of(area).y + 1,
        content_of(area).y == area.y + HEADER_ROWS,
        content_of(area).y + content_of(area).height == footer_of(area).y,
        footer_of(area).y + footer_of(area).height == area.y + area.height,
        content_of(area).width == area.width,
{
}

/// The sidebar and the panes lie side by side and fill the content.
pub proof fn sidebar_and_panes_fill_the_content(app: App, content: Rect)
    requires
        content.well_formed(),
    ensures
        match regions_of(app, content).0 {
            Some(s) => {
                &&& s.x == content.x
                &&& s.x + s.width == regions_of(app, content).1.x
                &&& s.width + regions_of(app, content).1.width == content.width
            },
            None => regions_of(app, content).1 == content,
        },
{
}

/// Every pane lies in the region of the panes, beside the sidebar.
pub proof fn rects_lie_inside(app: App, content: Rect)
    requires
        content.well_formed(),
    ensures
        forall|i: int|
            0 <= i < rects_in(app, content).len() ==> (#[trigger] rects_in(
                app,
                content,
            )[i]).1.inside(regions_of(app, content).1),
{
    match app.tab() {
        Some(t) => match t.layout {
            Some(l) => panes_lie_inside(l, regions_of(app, content).1),
            None => {},
        },
        None => {},
    }
}

/// Asking again without any change asks for nothing: after sizes were worked
/// out, no pane's size is left to ask for.
pub proof fn sizes_are_asked_once(sizes: Map<u64, (u16, u16)>, rects: Seq<(PaneId, Rect)>)
    requires
        forall|i: int, j: int| 0 <= i < j < rects.len() ==> rects[i].0 != rects[j].0,
    ensures
        resizes(sizes_after(sizes, rects, rects.len() as int), rects, rects.len() as int)
            == Seq::<Sent>::empty(),
{
    sizes_settle(sizes, rects, rects.len() as int);
    nothing_to_ask(sizes_after(sizes, rects, rects.len() as int), rects, rects.len() as int);
}

proof fn sizes_settle(sizes: Map<u64, (u16, u16)>, rects: Seq<(PaneId, Rect)>, n: int)
    requires
        0 <= n <= rects.len(),
        forall|i: int, j: int| 0 <= i < j < rects.len() ==> rects[i].0 != rects[j].0,
    ensures
        forall|i: int|
            0 <= i < n ==> sizes_after(sizes, rects, n).contains_key((#[trigger] rects[i]).0.0)
                && sizes_after(sizes, rects, n)[rects[i].0.0] == inner_of(rects[i].1),
    decreases n,
{
    if n > 0 {
        sizes_settle(sizes, rects, n - 1);
        assert forall|i: int| 0 <= i < n implies sizes_after(sizes, rects, n).contains_key(
            (#[trigger] rects[i]).0.0,
        ) && sizes_after(sizes, rects, n)[rects[i].0.0] == inner_of(rects[i].1) by {
            if i < n - 1 {
                assert(rects[i].0 != rects[n - 1].0);
            }
        }
    }
}

proof fn nothing_to_ask(have: Map<u64, (u16, u16)>, rects: Seq<(PaneId, Rect)>, n: int)
    requires
        0 <= n <= rects.len(),
        forall|i: int|
            0 <= i < rects.len() ==> have.contains_key((#[trigger] rects[i]).0.0)
                && have[rects[i].0.0] == inner_of(rects[i].1),
    ensures
        resizes(have, rects, n) == Seq::<Sent>::empty(),
        sizes_after(have, rects, n) == have,
    decreases n,
{
    if n > 0 {
        nothing_to_ask(have, rects, n - 1);
        assert(have.insert(rects[n - 1].0.0, inner_of(rects[n - 1].1)) =~= have);
    }
}

/// The sidebar is shown where the file says so and while it has the keys, but never on
/// a screen that is too narrow: `off` shows it only while it has the keys, and `auto`
/// once there is a second workspace or an agent.
pub proof fn the_sidebar_is_shown_as_configured(app: App, width: u16)
    ensures
        width < SIDEBAR_MIN_TOTAL ==> !sidebar_drawn(app, width),
        width >= SIDEBAR_MIN_TOTAL && app.mode == Mode::Sidebar ==> sidebar_drawn(app, width),
        width >= SIDEBAR_MIN_TOTAL && app.config.sidebar == SidebarVisibility::On ==> sidebar_drawn(
            app,
            width,
        ),
        app.mode == Mode::Terminal && app.config.sidebar == SidebarVisibility::Off
            ==> !sidebar_drawn(app, width),
        width >= SIDEBAR_MIN_TOTAL && app.mode == Mode::Terminal && app.config.sidebar
            == SidebarVisibility::Auto ==> sidebar_drawn(app, width) == (app.workspaces@.len() > 1
            || exists|w: int, t: int, p: int|
            0 <= w < app.workspaces@.len() && 0 <= t < app.workspaces@[w].tabs@.len() && 0 <= p
                < app.workspaces@[w].tabs@[t].panes@.len() && (
            #[trigger] app.workspaces@[w].tabs@[t].panes@[p]).agent is Some),
{
    let ws = app.workspaces@;
    if any_agent(ws) {
        let w = choose|w: int| 0 <= w < ws.len() && workspace_has_agent(#[trigger] ws[w]);
        let tabs = ws[w].tabs@;
        let t = choose|t: int| 0 <= t < tabs.len() && tab_has_agent(#[trigger] tabs[t]);
        let panes = tabs[t].panes@;
        let p = choose|p: int| 0 <= p < panes.len() && (#[trigger] panes[p]).agent is Some;
        assert(app.workspaces@[w].tabs@[t].panes@[p].agent is Some);
    }
    assert forall|w: int, t: int, p: int|
        0 <= w < ws.len() && 0 <= t < ws[w].tabs@.len() && 0 <= p < ws[w].tabs@[t].panes@.len() && (
        #[trigger] ws[w].tabs@[t].panes@[p]).agent is Some implies any_agent(ws) by {
        assert(tab_has_agent(ws[w].tabs@[t]));
        assert(workspace_has_agent(ws[w]));
    }
}

/// The sidebar stands at the left of the panes, both as high as the content; without
/// it the panes have it all.
pub proof fn the_sidebar_stands_on_the_left(app: App, content: Rect)
    requires
        content.well_formed(),
    ensures
        ({
            let (side, panes) = regions_of(app, content);
            &&& panes.y == content.y && panes.height == content.height
            &&& panes.x + panes.width == content.x + content.width
            &&& side matches Some(s) ==> s.x == content.x && s.y == content.y && s.height
                == content.height && s.x + s.width == panes.x
            &&& side is None ==> panes == content
        }),
{
}

/// The app bar is the first row, the rule the second, and the footer the last; the
/// content lies between them.
pub proof fn bars_stand_at_the_edges(area: Rect)
    requires
        area.well_formed(),
        area.height >= 4,
    ensures
        app_bar_of(area).y == area.y && app_bar_of(area).height == 1,
        rule_of(area).y == area.y + 1 && rule_of(area).height == 1,
        footer_of(area).y + 1 == area.y + area.height && footer_of(area).height == 1,
        content_of(area).y == area.y + 2,
        content_of(area).y + content_of(area).height == footer_of(area).y,
        app_bar_of(area).width == area.width && footer_of(area).width == area.width
            && content_of(area).width == area.width,
        app_bar_of(area).x == area.x && footer_of(area).x == area.x && content_of(area).x == area.x,
{
}

/// The size that a pane's program is told is the size of what is drawn of it: the rows
/// and columns inside its frame, and at least one of each.
pub proof fn programs_are_told_the_size_that_is_drawn(rect: Rect)
    ensures
        inner_of(rect).0 >= 1 && inner_of(rect).1 >= 1,
        rect.width > 2 && rect.height > 3 ==> inner_of(rect) == (
            crate::attach::grid::pane_inside(rect).height,
            crate::attach::grid::pane_inside(rect).width,
        ),
{
}

/// A pane whose rectangle changed is told its new rows and columns, and the last size
/// it was told is remembered.
pub proof fn new_sizes_are_told(
    sizes: Map<u64, (u16, u16)>,
    rects: Seq<(PaneId, Rect)>,
    n: int,
)
    requires
        0 < n <= rects.len(),
    ensures
        ({
            let pane = rects[n - 1].0;
            let rect = rects[n - 1].1;
            let had = sizes_after(sizes, rects, n - 1);
            let out = resizes(sizes, rects, n);
            &&& sizes_after(sizes, rects, n)[pane.0] == inner_of(rect)
            &&& !had.contains_key(pane.0) && rect.height > 3 && rect.width > 2 ==> out.len() > 0
                && out.last() == Sent::Control(
                Asked::PaneResize {
                    pane,
                    rows: (rect.height - 3) as u16,
                    cols: (rect.width - 2) as u16,
                },
            )
        }),
{
}

/// A zoomed pane has the whole region to itself; otherwise every pane of the tab has
/// its part.
pub proof fn zoomed_panes_fill_the_region(app: App, content: Rect, layout: crate::model::Layout)
    requires
        app.tab() is Some,
        app.tab()->0.layout == Some(layout),
    ensures
        app.zoom && app.focused is Some && crate::model::shows(layout, app.focused->0) ==> rects_in(
            app,
            content,
        ) == seq![(app.focused->0, regions_of(app, content).1)],
        !app.zoom ==> rects_in(app, content) == crate::layout::rects_of(
            layout,
            regions_of(app, content).1,
        ),
{
}

/// A tab's label shows its number, counted from 1, and its name, and stands for that
/// tab.
pub proof fn labels_tell_the_tab(tabs: Seq<TabView>, i: int)
    requires
        0 <= i < tabs.len(),
    ensures
        chips_of(tabs).len() == tabs.len() + 1,
        chips_of(tabs)[i].0 == Some(tabs[i].id),
        chips_of(tabs)[i].1 == " "@ + decimal((i + 1) as nat) + " "@ + tabs[i].name@ + " "@,
        chips_of(tabs).last().0 is None,
{
}

/// The distance between two panes is that between their middles: the same both ways,
/// nothing from a pane to itself, and larger the further a pane lies to one side.
pub proof fn distances_are_distances(a: Rect, b: Rect, c: Rect)
    ensures
        distance(a, b) == distance(b, a),
        distance(a, a) == 0,
        distance(a, b) >= 0,
        b.y == c.y && b.height == c.height && b.width == c.width && a.x + a.width / 2 <= b.x
            + b.width / 2 && b.x < c.x ==> distance(a, b) < distance(a, c),
        b.x == c.x && b.height == c.height && b.width == c.width && a.y + a.height / 2 <= b.y
            + b.height / 2 && b.y < c.y ==> distance(a, b) < distance(a, c),
{
    let (ax, bx, cx) = (a.x + a.width / 2, b.x + b.width / 2, c.x + c.width / 2);
    let (ay, by, cy) = (a.y + a.height / 2, b.y + b.height / 2, c.y + c.height / 2);
    assert(gap_squared(ax, bx) == gap_squared(bx, ax)) by (nonlinear_arith);
    assert(gap_squared(ay, by) == gap_squared(by, ay)) by (nonlinear_arith);
    assert(gap_squared(ax, bx) >= 0 && gap_squared(ay, by) >= 0) by (nonlinear_arith);
    if ax <= bx < cx {
        assert(gap_squared(ax, bx) < gap_squared(ax, cx)) by (nonlinear_arith)
            requires
                ax <= bx < cx,
        ;
    }
    if ay <= by < cy {
        assert(gap_squared(ay, by) < gap_squared(ay, cy)) by (nonlinear_arith)
            requires
                ay <= by < cy,
        ;
    }
}

/// The focus stays on its pane while the tab has it; else it goes to the pane that the
/// server calls active there, and else to the first.
pub proof fn the_focus_stays_where_it_can(app: App, pane: PaneId, tab: TabId)
    ensures
        app.focused == Some(pane) && app.tab_panes().contains(pane) ==> focus_kept(app) == Some(
            pane,
        ),
        !(app.focused is Some && app.tab_panes().contains(app.focused->0)) && app.tab() is Some
            && app.tab()->0.active_pane == Some(pane) && app.tab_panes().contains(pane)
            ==> focus_kept(app) == Some(pane),
        !(app.focused is Some && app.tab_panes().contains(app.focused->0)) && (app.tab() is None
            || app.tab()->0.active_pane is None) && app.tab_panes().len() > 0 ==> focus_kept(app)
            == Some(app.tab_panes()[0]),
        app.tab_panes().len() == 0 ==> focus_kept(app) is None,
        at_tab(app, tab).active_tab == Some(tab) && !at_tab(app, tab).zoom,
{
}

} // verus!
