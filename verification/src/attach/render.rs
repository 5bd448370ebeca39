//! The whole screen.

use vstd::prelude::*;

use crate::attach::app::{App, Mode};
use crate::attach::bars::{
    app_bar_strokes, band_strokes, draw_notification, footer_strokes, rule_strokes,
};
use crate::attach::geometry::{
    app_bar_of, content_of, footer_of, least, less, rects_in, rects_lie_inside, regions_of,
    rule_of,
};
use crate::attach::grid::pane_strokes;
use crate::attach::look::{no_strokes, shaded, strokes, Paint, Stroke};
use crate::attach::popups::{
    command_strokes, dashboard_strokes, help_strokes, launcher_strokes, whichkey_strokes,
};
use crate::attach::tree::{
    completion_strokes, completions_strokes, panel_bg, prompt_label, prompt_strokes,
    sidebar_strokes,
};
use crate::layout::Rect;
use crate::model::PaneId;
use crate::text::texts;

verus! {

/// What the first `n` panes draw.
pub open spec fn panes_strokes(app: App, rects: Seq<(PaneId, Rect)>, n: int) -> Seq<Stroke>
    decreases n,
{
    if n <= 0 {
        no_strokes()
    } else {
        panes_strokes(app, rects, n - 1) + pane_strokes(app, rects[n - 1].0, rects[n - 1].1)
    }
}

/// The panes, or what an empty screen shows.
pub open spec fn bottom_strokes(app: App, content: Rect) -> Seq<Stroke> {
    let rects = rects_in(app, content);
    if rects.len() == 0 {
        dashboard_strokes(app, regions_of(app, content).1)
    } else {
        panes_strokes(app, rects, rects.len() as int)
    }
}

/// The sidebar, if it is shown.
pub open spec fn side_strokes(app: App, content: Rect) -> Seq<Stroke> {
    match regions_of(app, content).0 {
        Some(r) => sidebar_strokes(app, r),
        None => no_strokes(),
    }
}

/// What lies at the bottom: the panes, the bars and the sidebar.
pub open spec fn ground_strokes(app: App, area: Rect) -> Seq<Stroke> {
    let content = content_of(area);
    bottom_strokes(app, content) + app_bar_strokes(app, app_bar_of(area)) + rule_strokes(app, rule_of(area)) + side_strokes(
        app,
        content,
    ) + footer_strokes(app, footer_of(area))
}

/// What lies above it: the band of a status message, in the row above the
/// footer, and what floats.
pub open spec fn float_strokes(app: App, area: Rect) -> Seq<Stroke> {
    let footer = footer_of(area);
    (match app.message() {
        Some(m) if footer.y > content_of(area).y => band_strokes(
            m,
            Rect { y: (footer.y - 1) as u16, height: 1, ..footer },
        ),
        _ => no_strokes(),
    }) + (if app.keys_shown() {
        whichkey_strokes(app, regions_of(app, content_of(area)).1)
    } else if app.mode == Mode::Help {
        help_strokes(app, area)
    } else if app.mode == Mode::Launcher {
        launcher_strokes(app, area)
    } else if app.mode == Mode::LauncherCommand {
        command_strokes(app, area)
    } else {
        no_strokes()
    })
}

/// What the whole screen draws, in order.
pub open spec fn picture(app: App, area: Rect) -> Seq<Stroke> {
    if area.height == 0 {
        no_strokes()
    } else {
        ground_strokes(app, area) + float_strokes(app, area)
    }
}

fn draw_bottom(out: &mut Vec<Paint>, app: &App, content: Rect)
    requires
        content.well_formed(),
    ensures
        strokes(final(out)@) == strokes(old(out)@) + bottom_strokes(*app, content),
{
    let ghost before = strokes(out@);
    let rects: Vec<(PaneId, Rect)> = app.compute_rects(content);
    if rects.len() == 0 {
        let (_, panes) = app.regions(content);
        app.draw_dashboard(out, panes);
        return;
    }
    assert(strokes(out@) =~= before + panes_strokes(*app, rects@, 0));
    for i in 0..rects.len()
        invariant
            content.well_formed(),
            forall|j: int| 0 <= j < rects@.len() ==> (#[trigger] rects@[j]).1.inside(content),
            strokes(out@) == before + panes_strokes(*app, rects@, i as int),
    {
        assert(rects@[i as int].1.inside(content));
        app.draw_pane(out, rects[i].0, rects[i].1);
        proof {
            added_in_turn(
                before,
                panes_strokes(*app, rects@, i as int),
                pane_strokes(*app, rects@[i as int].0, rects@[i as int].1),
            );
        }
    }
}

proof fn added_in_turn(a: Seq<Stroke>, b: Seq<Stroke>, c: Seq<Stroke>)
    ensures
        (a + b) + c == a + (b + c),
{
    assert((a + b) + c =~= a + (b + c));
}

fn draw_ground(out: &mut Vec<Paint>, app: &App, area: Rect)
    requires
        area.well_formed(),
        area.height > 0,
    ensures
        strokes(final(out)@) == strokes(old(out)@) + ground_strokes(*app, area),
{
    let ghost before = strokes(out@);
    let ghost bottom = bottom_strokes(*app, content_of(area));
    let (content, footer) = App::content_rect(area);
    let (app_bar, rule) = App::header_rects(area);
    let (sidebar, _) = app.regions(content);
    draw_bottom(out, app, content);
    app.draw_app_bar(out, app_bar);
    let ghost bar = app_bar_strokes(*app, app_bar_of(area));
    app.draw_rule(out, rule);
    let ghost line = rule_strokes(*app, rule_of(area));
    let ghost side = side_strokes(*app, content_of(area));
    match sidebar {
        Some(r) => app.draw_sidebar(out, r),
        None => {
            assert(strokes(out@) =~= strokes(out@) + side);
        },
    }
    app.draw_footer(out, footer);
    let ghost foot = footer_strokes(*app, footer_of(area));
    proof {
        added_in_turn(before, bottom, bar);
        added_in_turn(before, bottom + bar, line);
        added_in_turn(before, bottom + bar + line, side);
        added_in_turn(before, bottom + bar + line + side, foot);
    }
}

fn draw_floats(out: &mut Vec<Paint>, app: &App, area: Rect)
    requires
        area.well_formed(),
        area.height > 0,
    ensures
        strokes(final(out)@) == strokes(old(out)@) + float_strokes(*app, area),
{
    let ghost before = strokes(out@);
    let (content, footer) = App::content_rect(area);
    match app.transient() {
        Some(message) => {
            if footer.y > content.y {
                draw_notification(out, message, Rect { y: footer.y - 1, height: 1, ..footer });
            }
        },
        None => {},
    }
    if app.whichkey_visible() {
        let (_, panes) = app.regions(content);
        app.draw_whichkey(out, panes);
    } else {
        match app.mode {
            Mode::Help => app.draw_help(out, area),
            Mode::Launcher => app.draw_launcher(out, area),
            Mode::LauncherCommand => app.draw_launcher_command(out, area),
            _ => {},
        }
    }
    assert(strokes(out@) =~= before + float_strokes(*app, area));
}

/// Everything that the client draws on a screen, in order.
pub fn draw(app: &App, area: Rect) -> (r: Vec<Paint>)
    requires
        area.well_formed(),
    ensures
        strokes(r@) == picture(*app, area),
{
    let mut out: Vec<Paint> = Vec::new();
    assert(strokes(out@) =~= no_strokes());
    if area.height > 0 {
        draw_ground(&mut out, app, area);
        draw_floats(&mut out, app, area);
    }
    assert(strokes(out@) =~= picture(*app, area));
    out
}

// ---- laws ----------------------------------------------------------------

/// Whether nothing is drawn on a background of its own but for text.
pub open spec fn flat(s: Seq<Stroke>) -> bool {
    forall|i: int|
        0 <= i < s.len() ==> match #[trigger] s[i] {
            Stroke::Shade { .. } => false,
            Stroke::Frame { bg, .. } => bg is None,
            _ => true,
        }
}

proof fn flat_together(a: Seq<Stroke>, b: Seq<Stroke>)
    requires
        flat(a),
        flat(b),
    ensures
        flat(a + b),
{
    assert forall|i: int| 0 <= i < (a + b).len() implies match #[trigger] (a + b)[i] {
        Stroke::Shade { .. } => false,
        Stroke::Frame { bg, .. } => bg is None,
        _ => true,
    } by {
        if i < a.len() {
            assert((a + b)[i] == a[i]);
        } else {
            assert((a + b)[i] == b[i - a.len()]);
        }
    }
}

proof fn panes_are_flat(app: App, rects: Seq<(PaneId, Rect)>, n: int)
    ensures
        flat(panes_strokes(app, rects, n)),
    decreases n,
{
    if n > 0 {
        panes_are_flat(app, rects, n - 1);
        flat_together(
            panes_strokes(app, rects, n - 1),
            pane_strokes(app, rects[n - 1].0, rects[n - 1].1),
        );
    }
}

proof fn completions_are_flat(
    list: Seq<Seq<char>>,
    selected: int,
    inner: Rect,
    rows: int,
    n: int,
)
    ensures
        flat(completions_strokes(list, selected, inner, rows, n)),
    decreases n,
{
    if n > 0 {
        completions_are_flat(list, selected, inner, rows, n - 1);
        flat_together(
            completions_strokes(list, selected, inner, rows, n - 1),
            completion_strokes(list[n - 1], n - 1 == selected, inner, rows - (n - 1)),
        );
    }
}

proof fn prompts_are_flat(
    label: Seq<char>,
    text: Seq<char>,
    list: Seq<Seq<char>>,
    selected: int,
    inner: Rect,
)
    ensures
        flat(prompt_strokes(label, text, list, selected, inner)),
{
    let rows = least(list.len() as int, less(inner.height as int, 1));
    completions_are_flat(list, selected, inner, rows, rows);
    let above = completions_strokes(list, selected, inner, rows, rows);
    let all = prompt_strokes(label, text, list, selected, inner);
    flat_together(above, all.skip(above.len() as int));
    assert(all =~= above + all.skip(above.len() as int));
}

/// What the sidebar draws above its shade.
pub open spec fn sidebar_above(app: App, area: Rect) -> Seq<Stroke> {
    sidebar_strokes(app, area).skip(
        if area.width < 3 || area.height < 2 {
            0
        } else {
            shaded(area, panel_bg(app)).len() as int
        },
    )
}

proof fn sidebars_are_flat(app: App, area: Rect)
    ensures
        flat(sidebar_above(app, area)),
        sidebar_strokes(app, area) == (if area.width < 3 || area.height < 2 {
            no_strokes()
        } else {
            shaded(area, panel_bg(app))
        }) + sidebar_above(app, area),
{
    let all = sidebar_strokes(app, area);
    if area.width < 3 || area.height < 2 {
        assert(sidebar_above(app, area) =~= no_strokes());
    } else {
        let list = if app.mode == Mode::SidebarWorkspaceName {
            Seq::empty()
        } else {
            texts(app.prompt.completions@)
        };
        let inner = Rect {
            x: (area.x + 2) as u16,
            y: (area.y + 1) as u16,
            width: less(area.width as int, 4) as u16,
            height: (area.height - 2) as u16,
        };
        prompts_are_flat(
            prompt_label(app),
            app.prompt.text@,
            list,
            app.prompt.selected as int,
            inner,
        );
        let text = seq![all[shaded(area, panel_bg(app)).len() as int]];
        let rest = all.skip(shaded(area, panel_bg(app)).len() as int + 1);
        assert(sidebar_above(app, area) =~= text + rest);
        if app.in_prompt_mode() {
            assert(rest =~= prompt_strokes(
                prompt_label(app),
                app.prompt.text@,
                list,
                app.prompt.selected as int,
                inner,
            ));
        } else {
            assert(rest =~= no_strokes());
        }
        flat_together(text, rest);
        assert(all =~= shaded(area, panel_bg(app)) + sidebar_above(app, area));
    }
}

proof fn bars_are_flat(app: App, area: Rect)
    requires
        !(app.config.chrome_background && app.truecolor),
    ensures
        flat(app_bar_strokes(app, area)),
        flat(rule_strokes(app, area)),
        flat(footer_strokes(app, area)),
{
}

proof fn panels_are_flat(app: App, area: Rect)
    requires
        !(app.config.chrome_background && app.truecolor),
    ensures
        flat(whichkey_strokes(app, area)),
        flat(help_strokes(app, area)),
        flat(launcher_strokes(app, area)),
        flat(command_strokes(app, area)),
{
}

proof fn bands_are_flat(message: Seq<char>, area: Rect)
    ensures
        flat(band_strokes(message, area)),
{
}

proof fn floats_are_flat(app: App, area: Rect)
    requires
        !(app.config.chrome_background && app.truecolor),
    ensures
        flat(float_strokes(app, area)),
{
    let footer = footer_of(area);
    let band = match app.message() {
        Some(m) if footer.y > content_of(area).y => band_strokes(
            m,
            Rect { y: (footer.y - 1) as u16, height: 1, ..footer },
        ),
        _ => no_strokes(),
    };
    match app.message() {
        Some(m) => bands_are_flat(m, Rect { y: (footer.y - 1) as u16, height: 1, ..footer }),
        None => {},
    }
    let panel = float_strokes(app, area).skip(band.len() as int);
    panels_are_flat(app, area);
    panels_are_flat(app, regions_of(app, content_of(area)).1);
    assert(float_strokes(app, area) =~= band + panel);
    if app.keys_shown() {
        assert(panel =~= whichkey_strokes(app, regions_of(app, content_of(area)).1));
    } else if app.mode == Mode::Help {
        assert(panel =~= help_strokes(app, area));
    } else if app.mode == Mode::Launcher {
        assert(panel =~= launcher_strokes(app, area));
    } else if app.mode == Mode::LauncherCommand {
        assert(panel =~= command_strokes(app, area));
    } else {
        assert(panel =~= no_strokes());
    }
    flat_together(band, panel);
}

/// Where the terminal does not show 24-bit colours, or the configuration says
/// so, nothing is shaded.
pub proof fn plain_terminals_are_not_shaded(app: App, area: Rect)
    requires
        !(app.config.chrome_background && app.truecolor),
    ensures
        flat(picture(app, area)),
{
    let content = content_of(area);
    let rects = rects_in(app, content);
    panes_are_flat(app, rects, rects.len() as int);
    let bottom = bottom_strokes(app, content);
    let bar = app_bar_strokes(app, app_bar_of(area));
    let rule = rule_strokes(app, rule_of(area));
    let side = side_strokes(app, content);
    let foot = footer_strokes(app, footer_of(area));
    match regions_of(app, content).0 {
        Some(r) => {
            sidebars_are_flat(app, r);
            flat_together(no_strokes(), sidebar_above(app, r));
        },
        None => {},
    }
    bars_are_flat(app, app_bar_of(area));
    bars_are_flat(app, rule_of(area));
    bars_are_flat(app, footer_of(area));
    floats_are_flat(app, area);
    flat_together(bottom, bar);
    flat_together(bottom + bar, rule);
    flat_together(bottom + bar + rule, side);
    flat_together(bottom + bar + rule + side, foot);
    flat_together(ground_strokes(app, area), float_strokes(app, area));
}

/// Whether two rectangles share no cell.
pub open spec fn apart(a: Rect, b: Rect) -> bool {
    forall|col: int, row: int| #![trigger a.holds(col, row)] a.holds(col, row) ==> !b.holds(col, row)
}

/// Whether every shade lies apart from the panes.
pub open spec fn spared(s: Seq<Stroke>, rects: Seq<(PaneId, Rect)>) -> bool {
    forall|i: int, k: int|
        #![trigger s[i], rects[k]]
        0 <= i < s.len() && 0 <= k < rects.len() ==> (s[i] matches Stroke::Shade { area, .. }
            ==> apart(area, rects[k].1))
}

proof fn spared_together(a: Seq<Stroke>, b: Seq<Stroke>, rects: Seq<(PaneId, Rect)>)
    requires
        spared(a, rects),
        spared(b, rects),
    ensures
        spared(a + b, rects),
{
    assert forall|i: int, k: int|
        #![trigger (a + b)[i], rects[k]]
        0 <= i < (a + b).len() && 0 <= k < rects.len() implies ((a + b)[i] matches Stroke::Shade {
        area,
        ..
    } ==> apart(area, rects[k].1)) by {
        if i < a.len() {
            assert((a + b)[i] == a[i]);
        } else {
            assert((a + b)[i] == b[i - a.len()]);
        }
    }
}

proof fn flat_spares(s: Seq<Stroke>, rects: Seq<(PaneId, Rect)>)
    requires
        flat(s),
    ensures
        spared(s, rects),
{
}

/// Panes are never shaded: whatever they show stands on the terminal's own
/// background, and the shades behind the bars and the sidebar lie apart from
/// them.
pub proof fn panes_are_never_shaded(app: App, area: Rect)
    requires
        area.well_formed(),
        area.height > 0,
    ensures
        flat(bottom_strokes(app, content_of(area))),
        spared(ground_strokes(app, area), rects_in(app, content_of(area))),
{
    let content = content_of(area);
    let rects = rects_in(app, content);
    panes_are_flat(app, rects, rects.len() as int);
    rects_lie_inside(app, content);
    let bottom = bottom_strokes(app, content);
    let bar = app_bar_strokes(app, app_bar_of(area));
    let rule = rule_strokes(app, rule_of(area));
    let side = side_strokes(app, content);
    let foot = footer_strokes(app, footer_of(area));
    flat_spares(bottom, rects);
    match regions_of(app, content).0 {
        Some(r) => {
            sidebars_are_flat(app, r);
            flat_spares(sidebar_above(app, r), rects);
            spared_together(
                if r.width < 3 || r.height < 2 {
                    no_strokes()
                } else {
                    shaded(r, panel_bg(app))
                },
                sidebar_above(app, r),
                rects,
            );
        },
        None => {},
    }
    spared_together(bottom, bar, rects);
    spared_together(bottom + bar, rule, rects);
    spared_together(bottom + bar + rule, side, rects);
    spared_together(bottom + bar + rule + side, foot, rects);
}

/// Every pane on the screen is drawn, each in its own rectangle, in order.
pub proof fn every_pane_is_drawn(app: App, rects: Seq<(PaneId, Rect)>, n: int, i: int)
    requires
        0 <= i < n <= rects.len(),
    ensures
        ({
            let before = panes_strokes(app, rects, i).len() as int;
            let own = pane_strokes(app, rects[i].0, rects[i].1);
            &&& before + own.len() <= panes_strokes(app, rects, n).len()
            &&& panes_strokes(app, rects, n).subrange(before, before + own.len()) == own
        }),
    decreases n,
{
    let before = panes_strokes(app, rects, i).len() as int;
    let own = pane_strokes(app, rects[i].0, rects[i].1);
    if i < n - 1 {
        every_pane_is_drawn(app, rects, n - 1, i);
        let part = panes_strokes(app, rects, n - 1);
        assert(panes_strokes(app, rects, n).subrange(before, before + own.len()) =~= part.subrange(
            before,
            before + own.len(),
        ));
    } else {
        assert(panes_strokes(app, rects, n).subrange(before, before + own.len()) =~= own);
    }
}

/// What floats above the screen goes by the mode: the keys where the prefix has waited,
/// the help, the launcher or its command, each under its own title, and nothing else;
/// a message comes before it, in the row above the footer.
pub proof fn what_floats_goes_by_the_mode(app: App, area: Rect)
    requires
        app.message() is None,
    ensures
        ({
            let s = float_strokes(app, area);
            let named = |title: Seq<char>|
                s.len() == 3 && (s[1] matches Stroke::Frame { title: t, .. } && t == title);
            &&& app.keys_shown() ==> named(" keys "@)
            &&& !app.keys_shown() && app.mode == Mode::Help ==> named(" help "@)
            &&& !app.keys_shown() && app.mode == Mode::Launcher && app.launch.target is None
                ==> named(" run "@)
            &&& !app.keys_shown() && app.mode == Mode::LauncherCommand ==> named(" run "@)
            &&& !app.keys_shown() && app.mode != Mode::Help && app.mode != Mode::Launcher && app.mode
                != Mode::LauncherCommand ==> s.len() == 0
        }),
{
}

/// A message is shown in the row right above the footer, as wide as it.
pub proof fn messages_stand_above_the_footer(app: App, area: Rect)
    requires
        app.message() is Some,
        footer_of(area).y > content_of(area).y,
    ensures
        float_strokes(app, area).len() >= 2,
        float_strokes(app, area)[0] matches Stroke::Wipe { area: at } && at.y + 1 == footer_of(
            area,
        ).y && at.height == 1 && at.x == footer_of(area).x && at.width == footer_of(area).width,
        float_strokes(app, area)[1] matches Stroke::Text { lines, .. } && lines[0][0].content
            == app.message()->0,
{
}

} // verus!
