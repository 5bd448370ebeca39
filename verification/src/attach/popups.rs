//! What floats above the panes: the keys behind the prefix, the help, the
//! launcher, and what an empty screen shows.

use vstd::prelude::*;

use crate::attach::app::App;
use crate::attach::bars::{bar_bg, pairs_of};
use crate::attach::geometry::{least, less};
use crate::attach::look::{
    add_line, add_plain, add_span, add_text, bold, bold_style, bold_tint, bold_tinted, dim,
    dim_style, faint, faint_style, line_looks, line_width, looks, no_lines, no_spans, no_strokes,
    piece, plain, plain_line, plain_style, put, strokes, text_in, tint, tinted, widest, widest_line,
    width_of, Line, Paint, Span, SpanLook, Stroke, ACCENT,
};
use crate::config::{binding_lines, bound_key, BindingLine, Config, PrefixAction, PrefixBinding};
use crate::key::{key_label, label_of};
use crate::launcher::{row_lines, LauncherRow, RowLine};
use crate::layout::Rect;
use crate::text::{decimal, glue, glue3, length, number, repeat, times};

verus! {

broadcast use vstd::string::group_string_axioms;

// ---- panels --------------------------------------------------------------

/// What a panel draws: what was there goes away, and the lines stand in a
/// titled frame.
pub open spec fn panel_strokes(
    app: App,
    area: Rect,
    title: Seq<char>,
    lines: Seq<Seq<SpanLook>>,
) -> Seq<Stroke> {
    seq![
        Stroke::Wipe { area },
        Stroke::Frame { area, style: dim_style(), title, bg: bar_bg(app) },
        text_in(
            Rect {
                x: least(area.x + 1, area.x + area.width) as u16,
                y: least(area.y + 1, area.y + area.height) as u16,
                width: less(area.width as int, 2) as u16,
                height: less(area.height as int, 2) as u16,
            },
            lines,
        ),
    ]
}

/// The size of a panel around lines: as wide as the widest and as tall as all,
/// as far as the screen goes.
pub open spec fn panel_size(lines: Seq<Seq<SpanLook>>, area: Rect) -> (u16, u16) {
    (
        least(widest(lines, lines.len() as int) + 2, area.width as int) as u16,
        least(lines.len() as int + 2, area.height as int) as u16,
    )
}

/// A panel of that size in the middle of the screen.
pub open spec fn in_the_middle(area: Rect, size: (u16, u16)) -> Rect {
    Rect {
        x: (area.x + (area.width - size.0) / 2) as u16,
        y: (area.y + (area.height - size.1) / 2) as u16,
        width: size.0,
        height: size.1,
    }
}

/// A panel of that size at the bottom right.
pub open spec fn in_the_corner(area: Rect, size: (u16, u16)) -> Rect {
    Rect {
        x: (area.x + area.width - size.0) as u16,
        y: (area.y + area.height - size.1) as u16,
        width: size.0,
        height: size.1,
    }
}

fn fit(n: usize, room: u16) -> (r: u16)
    ensures
        r == least(n + 2, room as int),
        r <= room,
{
    if room < 2 || n > (room - 2) as usize {
        room
    } else {
        n as u16 + 2
    }
}

fn measure(lines: &Vec<Line>, area: Rect) -> (r: (u16, u16))
    ensures
        r == panel_size(line_looks(lines@), area),
        r.0 <= area.width,
        r.1 <= area.height,
{
    (fit(widest_line(lines), area.width), fit(lines.len(), area.height))
}

fn middle(area: Rect, size: (u16, u16)) -> (r: Rect)
    requires
        area.well_formed(),
        size.0 <= area.width,
        size.1 <= area.height,
    ensures
        r == in_the_middle(area, size),
        r.well_formed(),
{
    Rect {
        x: area.x + (area.width - size.0) / 2,
        y: area.y + (area.height - size.1) / 2,
        width: size.0,
        height: size.1,
    }
}

impl App {
    fn draw_panel(&self, out: &mut Vec<Paint>, area: Rect, title: &str, lines: Vec<Line>)
        requires
            area.well_formed(),
        ensures
            strokes(final(out)@) == strokes(old(out)@) + panel_strokes(
                *self,
                area,
                title@,
                line_looks(lines@),
            ),
    {
        let ghost before = strokes(out@);
        let ghost all = line_looks(lines@);
        put(out, Paint::Wipe { area });
        put(
            out,
            Paint::Frame { area, style: dim(), title: title.to_owned(), bg: self.bar_tone() },
        );
        let inside: Rect = Rect {
            x: if area.width > 0 {
                area.x + 1
            } else {
                area.x
            },
            y: if area.height > 0 {
                area.y + 1
            } else {
                area.y
            },
            width: if area.width > 2 {
                area.width - 2
            } else {
                0
            },
            height: if area.height > 2 {
                area.height - 2
            } else {
                0
            },
        };
        put(out, Paint::Text { area: inside, lines, centred: false, base: plain() });
        assert(strokes(out@) =~= before + panel_strokes(*self, area, title@, all));
    }
}

/// A line of a panel: a key in the accent, and its label.
pub open spec fn key_line(key: Seq<char>, label: Seq<char>) -> Seq<SpanLook> {
    seq![piece(" "@ + key, tinted(ACCENT)), piece(" "@ + label + " "@, dim_style())]
}

/// A line of a panel: a key in the accent, and its label.
pub fn popup_key_line(key: &str, label: &str) -> (r: Vec<Span>)
    ensures
        looks(r@) == key_line(key@, label@),
{
    let mut spans: Vec<Span> = no_spans();
    add_span(&mut spans, glue(" ", key), tint(ACCENT));
    add_span(&mut spans, glue3(" ", label, " "), dim());
    assert(looks(spans@) =~= key_line(key@, label@));
    spans
}

// ---- the keys behind the prefix ------------------------------------------

/// The lines that list the keys behind the prefix.
pub open spec fn whichkey_lines(table: Seq<BindingLine>) -> Seq<Seq<SpanLook>> {
    Seq::new(table.len(), |i: int| key_line(label_of(table[i].key), table[i].desc)).push(
        key_line("esc"@, "close"@),
    )
}

/// What the list of the keys behind the prefix draws.
pub open spec fn whichkey_strokes(app: App, area: Rect) -> Seq<Stroke> {
    let lines = whichkey_lines(binding_lines(app.config.prefix_bindings@));
    panel_strokes(app, in_the_corner(area, panel_size(lines, area)), " keys "@, lines)
}

impl App {
    pub(crate) fn draw_whichkey(&self, out: &mut Vec<Paint>, area: Rect)
        requires
            area.well_formed(),
        ensures
            strokes(final(out)@) == strokes(old(out)@) + whichkey_strokes(*self, area),
    {
        let bindings: &Vec<PrefixBinding> = &self.config.prefix_bindings;
        let ghost table = binding_lines(bindings@);
        let ghost want = whichkey_lines(table);
        let mut lines: Vec<Line> = no_lines();
        for i in 0..bindings.len()
            invariant
                table == binding_lines(bindings@),
                want == whichkey_lines(table),
                line_looks(lines@) == want.take(i as int),
        {
            let label: String = key_label(bindings[i].key);
            assert(table[i as int] == bindings@[i as int]@);
            add_line(&mut lines, popup_key_line(label.as_str(), bindings[i].desc));
            assert(line_looks(lines@) =~= want.take(i + 1));
        }
        add_line(&mut lines, popup_key_line("esc", "close"));
        assert(line_looks(lines@) =~= want);
        let size: (u16, u16) = measure(&lines, area);
        let popup: Rect = Rect {
            x: area.x + (area.width - size.0),
            y: area.y + (area.height - size.1),
            width: size.0,
            height: size.1,
        };
        self.draw_panel(out, popup, " keys ", lines);
    }
}

// ---- the help ------------------------------------------------------------

/// The keys behind the prefix that do not detach, with their labels.
pub open spec fn other_keys(table: Seq<BindingLine>, n: int) -> Seq<(Seq<char>, Seq<char>)>
    decreases n,
{
    if n <= 0 {
        Seq::empty()
    } else if table[n - 1].action == PrefixAction::Detach {
        other_keys(table, n - 1)
    } else {
        other_keys(table, n - 1).push((label_of(table[n - 1].key), table[n - 1].desc))
    }
}

/// A label filled up to 14 characters.
pub open spec fn widened(label: Seq<char>) -> Seq<char> {
    label + times(' ', less(14, label.len() as int))
}

/// The `i`th line of keys, two to a line.
pub open spec fn help_pair(keys: Seq<(Seq<char>, Seq<char>)>, i: int) -> Seq<SpanLook> {
    let first = keys[2 * i];
    if 2 * i + 1 < keys.len() {
        let second = keys[2 * i + 1];
        seq![
            piece(" "@, plain_style()),
            piece(" "@ + first.0, tinted(ACCENT)),
            piece(" "@ + widened(first.1), dim_style()),
            piece(" "@ + second.0, tinted(ACCENT)),
            piece(" "@ + second.1, dim_style()),
        ]
    } else {
        seq![
            piece(" "@, plain_style()),
            piece(" "@ + first.0, tinted(ACCENT)),
            piece(" "@ + first.1, dim_style()),
        ]
    }
}

/// The lines of the help that do not depend on the keymap.
pub open spec fn help_tail() -> Seq<Seq<SpanLook>> {
    seq![
        plain_line(""@),
        plain_line("direct keys (no prefix):"@),
        key_line("  Ctrl+h/j/k/l"@, "focus by direction"@),
        key_line("  Alt+h/j/k/l"@, "resize split"@),
        key_line("  Alt+x"@, "kill pane"@),
        plain_line(""@),
        plain_line("sidebar (after C-b w):"@),
        key_line("  n / a"@, "new agent / add project"@),
        key_line("  d / m"@, "diff / merge workspace"@),
        key_line("  w / u"@, "fork / update stale"@),
        key_line("  x"@, "kill workspace"@),
        plain_line(""@),
        plain_line("stop the daemon:  tutti server stop"@),
        plain_line(""@),
        plain_line("(any key closes)"@),
    ]
}

/// The lines of the help: how to detach first, then the rest of the keymap.
pub open spec fn help_text(cfg: Config) -> Seq<Seq<SpanLook>> {
    let table = binding_lines(cfg.prefix_bindings@);
    let keys = other_keys(table, table.len() as int);
    seq![plain_line("tutti — press "@ + cfg.prefix.shown() + ", then:"@), plain_line(""@)] + (
    match bound_key(table, PrefixAction::Detach) {
        Some(k) => seq![key_line(label_of(k), "detach"@)],
        None => Seq::empty(),
    }) + Seq::new(((keys.len() + 1) / 2) as nat, |i: int| help_pair(keys, i)) + help_tail()
}

fn add_tail(lines: &mut Vec<Line>)
    ensures
        line_looks(final(lines)@) == line_looks(old(lines)@) + help_tail(),
{
    add_plain(lines, "".to_owned());
    add_plain(lines, "direct keys (no prefix):".to_owned());
    add_line(lines, popup_key_line("  Ctrl+h/j/k/l", "focus by direction"));
    add_line(lines, popup_key_line("  Alt+h/j/k/l", "resize split"));
    add_line(lines, popup_key_line("  Alt+x", "kill pane"));
    add_plain(lines, "".to_owned());
    add_plain(lines, "sidebar (after C-b w):".to_owned());
    add_line(lines, popup_key_line("  n / a", "new agent / add project"));
    add_line(lines, popup_key_line("  d / m", "diff / merge workspace"));
    add_line(lines, popup_key_line("  w / u", "fork / update stale"));
    add_line(lines, popup_key_line("  x", "kill workspace"));
    add_plain(lines, "".to_owned());
    add_plain(lines, "stop the daemon:  tutti server stop".to_owned());
    add_plain(lines, "".to_owned());
    add_plain(lines, "(any key closes)".to_owned());
    assert(line_looks(lines@) =~= line_looks(old(lines)@) + help_tail());
}

fn list_other_keys(cfg: &Config) -> (r: Vec<(String, &'static str)>)
    ensures
        pairs_of(r@) == other_keys(
            binding_lines(cfg.prefix_bindings@),
            cfg.prefix_bindings@.len() as int,
        ),
{
    let bindings: &Vec<PrefixBinding> = &cfg.prefix_bindings;
    let ghost table = binding_lines(bindings@);
    let mut keys: Vec<(String, &'static str)> = Vec::new();
    assert(pairs_of(keys@) =~= other_keys(table, 0));
    for i in 0..bindings.len()
        invariant
            table == binding_lines(bindings@),
            pairs_of(keys@) == other_keys(table, i as int),
    {
        assert(table[i as int] == bindings@[i as int]@);
        if bindings[i].action != PrefixAction::Detach {
            let ghost had = pairs_of(keys@);
            let label: String = key_label(bindings[i].key);
            let ghost shown = label@;
            keys.push((label, bindings[i].desc));
            assert(pairs_of(keys@) =~= had.push((shown, table[i as int].desc)));
        }
    }
    keys
}

fn help_pair_line(keys: &Vec<(String, &'static str)>, i: usize) -> (r: Vec<Span>)
    requires
        2 * i < keys@.len(),
    ensures
        looks(r@) == help_pair(pairs_of(keys@), i as int),
{
    let ghost all = pairs_of(keys@);
    let mut spans: Vec<Span> = no_spans();
    let count: usize = keys.len();
    let k: usize = 2 * i;
    assert(all[k as int] == (keys@[k as int].0@, keys@[k as int].1@));
    add_text(&mut spans, " ", plain());
    add_span(&mut spans, glue(" ", keys[k].0.as_str()), tint(ACCENT));
    if k < count - 1 {
        assert(all[k + 1] == (keys@[k + 1].0@, keys@[k + 1].1@));
        let n: usize = length(keys[k].1);
        let fill: usize = if n < 14 {
            14 - n
        } else {
            0
        };
        let label: String = glue(keys[k].1, repeat(' ', fill).as_str());
        add_span(&mut spans, glue(" ", label.as_str()), dim());
        add_span(&mut spans, glue(" ", keys[k + 1].0.as_str()), tint(ACCENT));
        add_span(&mut spans, glue(" ", keys[k + 1].1), dim());
    } else {
        add_span(&mut spans, glue(" ", keys[k].1), dim());
    }
    assert(looks(spans@) =~= help_pair(all, i as int));
    spans
}

/// The lines of the help.
pub fn help_lines(cfg: &Config) -> (r: Vec<Line>)
    ensures
        line_looks(r@) == help_text(*cfg),
{
    let mut lines: Vec<Line> = no_lines();
    let prefix: String = cfg.prefix.label();
    add_plain(&mut lines, glue3("tutti — press ", prefix.as_str(), ", then:"));
    add_plain(&mut lines, "".to_owned());
    match cfg.prefix_key(PrefixAction::Detach) {
        Some(k) => {
            let label: String = key_label(k);
            add_line(&mut lines, popup_key_line(label.as_str(), "detach"));
        },
        None => {},
    }
    let ghost head = line_looks(lines@);
    let keys: Vec<(String, &'static str)> = list_other_keys(cfg);
    let ghost all = pairs_of(keys@);
    let count: usize = keys.len() / 2 + keys.len() % 2;
    assert(head =~= head + Seq::new(0, |i: int| help_pair(all, i)));
    for i in 0..count
        invariant
            all == pairs_of(keys@),
            count == (all.len() + 1) / 2,
            line_looks(lines@) == head + Seq::new(i as nat, |i: int| help_pair(all, i)),
    {
        add_line(&mut lines, help_pair_line(&keys, i));
        assert(line_looks(lines@) =~= head + Seq::new((i + 1) as nat, |i: int| help_pair(all, i)));
    }
    add_tail(&mut lines);
    assert(line_looks(lines@) =~= help_text(*cfg));
    lines
}

/// What the help draws.
pub open spec fn help_strokes(app: App, area: Rect) -> Seq<Stroke> {
    let lines = help_text(app.config);
    panel_strokes(app, in_the_middle(area, panel_size(lines, area)), " help "@, lines)
}

impl App {
    pub(crate) fn draw_help(&self, out: &mut Vec<Paint>, area: Rect)
        requires
            area.well_formed(),
        ensures
            strokes(final(out)@) == strokes(old(out)@) + help_strokes(*self, area),
    {
        let lines: Vec<Line> = help_lines(&self.config);
        let size: (u16, u16) = measure(&lines, area);
        self.draw_panel(out, middle(area, size), " help ", lines);
    }
}

// ---- the launcher --------------------------------------------------------

/// A line of the launcher: its number, its name and what it is; what cannot be
/// chosen says so.
pub open spec fn launcher_row_line(idx: int, row: RowLine, selected: bool) -> Seq<SpanLook> {
    let num = piece(" "@ + decimal((idx + 1) as nat) + " "@, dim_style());
    if !row.available {
        seq![
            num,
            piece("  "@ + row.name + "   "@ + row.role + "  (not installed)"@, faint_style()),
        ]
    } else {
        seq![
            num,
            if selected {
                piece("❯ "@, bold_tinted(ACCENT))
            } else {
                piece("  "@, plain_style())
            },
            piece(
                row.name,
                if selected {
                    bold_tinted(ACCENT)
                } else {
                    bold_style()
                },
            ),
            piece("   "@ + row.role, dim_style()),
        ]
    }
}

/// A line of the launcher.
pub fn launcher_line(idx: usize, row: &LauncherRow, selected: bool) -> (r: Vec<Span>)
    requires
        idx < usize::MAX,
    ensures
        looks(r@) == launcher_row_line(idx as int, row@, selected),
{
    let mut spans: Vec<Span> = no_spans();
    let n: String = number((idx + 1) as u64);
    add_span(&mut spans, glue3(" ", n.as_str(), " "), dim());
    if !row.available {
        let mut text: String = glue3("  ", row.name.as_str(), "   ");
        text.append(row.role.as_str());
        text.append("  (not installed)");
        add_span(&mut spans, text, faint());
    } else {
        if selected {
            add_text(&mut spans, "❯ ", bold_tint(ACCENT));
            add_text(&mut spans, row.name.as_str(), bold_tint(ACCENT));
        } else {
            add_text(&mut spans, "  ", plain());
            add_text(&mut spans, row.name.as_str(), bold());
        }
        add_span(&mut spans, glue("   ", row.role.as_str()), dim());
    }
    assert(looks(spans@) =~= launcher_row_line(idx as int, row@, selected));
    spans
}

/// The title of the launcher.
pub open spec fn launch_title(app: App) -> Seq<char> {
    match app.launch.target {
        Some(name) => " run in "@ + name@ + " "@,
        None => " run "@,
    }
}

/// The lines of the launcher.
pub open spec fn launcher_text(app: App) -> Seq<Seq<SpanLook>> {
    let rows = row_lines(app.launch.rows@);
    Seq::new(
        rows.len(),
        |i: int| launcher_row_line(i, rows[i], i == app.launch.selected as int),
    ).push(key_line("esc"@, "cancel"@))
}

/// What the launcher draws.
pub open spec fn launcher_strokes(app: App, area: Rect) -> Seq<Stroke> {
    let lines = launcher_text(app);
    panel_strokes(app, in_the_middle(area, panel_size(lines, area)), launch_title(app), lines)
}

/// The line in which a command is typed.
pub open spec fn command_line(app: App) -> Seq<SpanLook> {
    seq![
        piece("▍"@, tinted(ACCENT)),
        piece("run: "@, dim_style()),
        piece(app.launch.command@, plain_style()),
        piece("█"@, tinted(ACCENT)),
    ]
}

/// The size of the panel in which a command is typed.
pub open spec fn command_size(app: App, area: Rect) -> (u16, u16) {
    let w = width_of(command_line(app)) + 2;
    (
        least(
            if w > 24 {
                w
            } else {
                24
            },
            area.width as int,
        ) as u16,
        least(3, area.height as int) as u16,
    )
}

/// What the line in which a command is typed draws.
pub open spec fn command_strokes(app: App, area: Rect) -> Seq<Stroke> {
    panel_strokes(
        app,
        in_the_middle(area, command_size(app, area)),
        " run "@,
        seq![command_line(app)],
    )
}

impl App {
    pub(crate) fn draw_launcher(&self, out: &mut Vec<Paint>, area: Rect)
        requires
            area.well_formed(),
        ensures
            strokes(final(out)@) == strokes(old(out)@) + launcher_strokes(*self, area),
    {
        let rows: &Vec<LauncherRow> = &self.launch.rows;
        let ghost all = row_lines(rows@);
        let ghost want = launcher_text(*self);
        let mut lines: Vec<Line> = no_lines();
        for i in 0..rows.len()
            invariant
                *rows == self.launch.rows,
                all == row_lines(rows@),
                want == launcher_text(*self),
                line_looks(lines@) == want.take(i as int),
        {
            assert(all[i as int] == rows@[i as int]@);
            add_line(&mut lines, launcher_line(i, &rows[i], i == self.launch.selected));
            assert(line_looks(lines@) =~= want.take(i + 1));
        }
        add_line(&mut lines, popup_key_line("esc", "cancel"));
        assert(line_looks(lines@) =~= want);
        let size: (u16, u16) = measure(&lines, area);
        let title: String = self.launcher_title();
        self.draw_panel(out, middle(area, size), title.as_str(), lines);
    }

    pub(crate) fn draw_launcher_command(&self, out: &mut Vec<Paint>, area: Rect)
        requires
            area.well_formed(),
        ensures
            strokes(final(out)@) == strokes(old(out)@) + command_strokes(*self, area),
    {
        let mut spans: Vec<Span> = no_spans();
        add_text(&mut spans, "▍", tint(ACCENT));
        add_text(&mut spans, "run: ", dim());
        add_text(&mut spans, self.launcher_command(), plain());
        add_text(&mut spans, "█", tint(ACCENT));
        assert(looks(spans@) =~= command_line(*self));
        let w: usize = line_width(&spans);
        let width: u16 = fit(
            if w > 22 {
                w
            } else {
                22
            },
            area.width,
        );
        let height: u16 = if area.height < 3 {
            area.height
        } else {
            3
        };
        let mut lines: Vec<Line> = no_lines();
        add_line(&mut lines, spans);
        assert(line_looks(lines@) =~= seq![command_line(*self)]);
        self.draw_panel(out, middle(area, (width, height)), " run ", lines);
    }
}

// ---- an empty screen -----------------------------------------------------

/// The name in block letters.
pub open spec fn letters() -> Seq<Seq<SpanLook>> {
    seq![
        seq![piece("███ █ █ ███ ███ ███"@, tinted(ACCENT))],
        seq![piece(" █  █ █  █   █   █ "@, tinted(ACCENT))],
        seq![piece(" █  █ █  █   █   █ "@, tinted(ACCENT))],
        seq![piece(" █  █ █  █   █   █ "@, tinted(ACCENT))],
        seq![piece(" █  ███  █   █  ███"@, tinted(ACCENT))],
    ]
}

/// A line that offers a key.
pub open spec fn action_line(key: Seq<char>, label: Seq<char>) -> Seq<SpanLook> {
    seq![piece(key + "  "@, tinted(ACCENT)), piece(label, faint_style())]
}

/// What can be done on an empty screen.
pub open spec fn action_lines(app: App) -> Seq<Seq<SpanLook>> {
    let prefix = app.config.prefix.shown();
    if app.workspaces@.len() == 0 {
        seq![
            action_line("a"@, "add a project"@),
            action_line(prefix + " %"@, "split"@),
            action_line(prefix + " ?"@, "help"@),
        ]
    } else {
        seq![
            action_line(prefix + " %"@, "split"@),
            action_line(prefix + " c"@, "new tab"@),
            action_line(prefix + " ?"@, "help"@),
        ]
    }
}

/// The lines of an empty screen of that height.
pub open spec fn dashboard_text(app: App, height: u16) -> Seq<Seq<SpanLook>> {
    if height >= 9 {
        letters() + seq![plain_line(""@)] + action_lines(app)
    } else {
        action_lines(app)
    }
}

/// What an empty screen draws: in the middle, the name where there is room, and
/// what can be done.
pub open spec fn dashboard_strokes(app: App, area: Rect) -> Seq<Stroke> {
    if area.width == 0 || area.height == 0 {
        no_strokes()
    } else {
        let lines = dashboard_text(app, area.height);
        let tall = least(lines.len() as int, area.height as int);
        seq![
            Stroke::Text {
                area: Rect {
                    y: (area.y + (area.height - tall) / 2) as u16,
                    height: tall as u16,
                    ..area
                },
                lines,
                centred: true,
                base: plain_style(),
            },
        ]
    }
}

fn add_letters(lines: &mut Vec<Line>)
    ensures
        line_looks(final(lines)@) == line_looks(old(lines)@) + letters(),
{
    add_letter_row(lines, "███ █ █ ███ ███ ███");
    add_letter_row(lines, " █  █ █  █   █   █ ");
    add_letter_row(lines, " █  █ █  █   █   █ ");
    add_letter_row(lines, " █  █ █  █   █   █ ");
    add_letter_row(lines, " █  ███  █   █  ███");
    assert(line_looks(lines@) =~= line_looks(old(lines)@) + letters());
}

fn add_letter_row(lines: &mut Vec<Line>, text: &str)
    ensures
        line_looks(final(lines)@) == line_looks(old(lines)@).push(
            seq![piece(text@, tinted(ACCENT))],
        ),
{
    let mut spans: Vec<Span> = no_spans();
    add_text(&mut spans, text, tint(ACCENT));
    assert(looks(spans@) =~= seq![piece(text@, tinted(ACCENT))]);
    add_line(lines, spans);
}

fn add_action(lines: &mut Vec<Line>, key: &str, label: &str)
    ensures
        line_looks(final(lines)@) == line_looks(old(lines)@).push(action_line(key@, label@)),
{
    let mut spans: Vec<Span> = no_spans();
    add_span(&mut spans, glue(key, "  "), tint(ACCENT));
    add_text(&mut spans, label, faint());
    assert(looks(spans@) =~= action_line(key@, label@));
    add_line(lines, spans);
}

impl App {
    pub(crate) fn draw_dashboard(&self, out: &mut Vec<Paint>, area: Rect)
        requires
            area.well_formed(),
        ensures
            strokes(final(out)@) == strokes(old(out)@) + dashboard_strokes(*self, area),
    {
        let ghost before = strokes(out@);
        if area.width == 0 || area.height == 0 {
            assert(strokes(out@) =~= before + dashboard_strokes(*self, area));
            return;
        }
        let prefix: String = self.config.prefix.label();
        let mut lines: Vec<Line> = no_lines();
        if area.height >= 9 {
            add_letters(&mut lines);
            add_plain(&mut lines, "".to_owned());
        }
        if self.workspaces.len() == 0 {
            add_action(&mut lines, "a", "add a project");
            add_action(&mut lines, glue(prefix.as_str(), " %").as_str(), "split");
        } else {
            add_action(&mut lines, glue(prefix.as_str(), " %").as_str(), "split");
            add_action(&mut lines, glue(prefix.as_str(), " c").as_str(), "new tab");
        }
        add_action(&mut lines, glue(prefix.as_str(), " ?").as_str(), "help");
        assert(line_looks(lines@) =~= dashboard_text(*self, area.height));
        let count: usize = lines.len();
        let tall: u16 = if count < area.height as usize {
            count as u16
        } else {
            area.height
        };
        let rect: Rect = Rect { y: area.y + (area.height - tall) / 2, height: tall, ..area };
        put(out, Paint::Text { area: rect, lines, centred: true, base: plain() });
        assert(strokes(out@) =~= before + dashboard_strokes(*self, area));
    }
}

// ---- laws ----------------------------------------------------------------

/// The popup shows every key behind the prefix, in the keymap's order, each with what
/// it does; and last how to close it.
pub proof fn the_popup_shows_every_key(table: Seq<BindingLine>, i: int)
    requires
        0 <= i < table.len(),
    ensures
        whichkey_lines(table).len() == table.len() + 1,
        whichkey_lines(table)[i].len() == 2,
        whichkey_lines(table)[i][0].content == " "@ + label_of(table[i].key),
        whichkey_lines(table)[i][1].content == " "@ + table[i].desc + " "@,
        whichkey_lines(table).last()[0].content == " "@ + "esc"@,
{
}

/// The help shows every key behind the prefix but those that detach, each with what it
/// does.
pub proof fn the_help_shows_every_key(table: Seq<BindingLine>, n: int, i: int) -> (k: int)
    requires
        0 <= i < n <= table.len(),
        table[i].action != PrefixAction::Detach,
    ensures
        0 <= k < other_keys(table, n).len(),
        other_keys(table, n)[k] == (label_of(table[i].key), table[i].desc),
    decreases n,
{
    if i == n - 1 {
        other_keys(table, n - 1).len() as int
    } else {
        the_help_shows_every_key(table, n - 1, i)
    }
}

/// The help begins with the prefix that is in effect, and tells first how to detach.
pub proof fn the_help_tells_how_to_detach(cfg: Config)
    ensures
        help_text(cfg)[0][0].content == "tutti — press "@ + cfg.prefix.shown() + ", then:"@,
        bound_key(binding_lines(cfg.prefix_bindings@), PrefixAction::Detach) matches Some(k)
            ==> help_text(cfg)[2][0].content == " "@ + label_of(k) && help_text(cfg)[2][1].content
            == " "@ + "detach"@ + " "@,
{
}

/// A row of the launcher shows the number that chooses it, its name and what it runs;
/// one that cannot be chosen says that it is not installed, and just the selected one
/// is marked.
pub proof fn launcher_rows_tell_their_number(idx: int, row: RowLine, selected: bool)
    requires
        0 <= idx,
    ensures
        ({
            let r = launcher_row_line(idx, row, selected);
            &&& r[0].content == " "@ + decimal((idx + 1) as nat) + " "@
            &&& row.available ==> r.len() == 4 && r[2].content == row.name && r[3].content
                == "   "@ + row.role && (r[1].style.fg == Some(ACCENT)) == selected
            &&& !row.available ==> r.len() == 2 && r[1].content == "  "@ + row.name + "   "@
                + row.role + "  (not installed)"@ && r[1].style.add_modifier.dim
        }),
{
}

/// The launcher names the workspace that it runs in, and shows its rows in order.
pub proof fn the_launcher_names_its_workspace(app: App, i: int)
    requires
        0 <= i < app.launch.rows@.len(),
    ensures
        app.launch.target matches Some(name) ==> launch_title(app) == " run in "@ + name@ + " "@,
        app.launch.target is None ==> launch_title(app) == " run "@,
        launcher_text(app).len() == app.launch.rows@.len() + 1,
        launcher_text(app)[i] == launcher_row_line(
            i,
            app.launch.rows@[i]@,
            i == app.launch.selected,
        ),
{
}

/// A panel in the middle has as much room on its left as on its right, and above as
/// below, but for one cell; one in the corner ends where the area ends.
pub proof fn panels_stand_where_they_should(area: Rect, size: (u16, u16))
    requires
        area.well_formed(),
        size.0 <= area.width,
        size.1 <= area.height,
    ensures
        ({
            let m = in_the_middle(area, size);
            let left = m.x - area.x;
            let right = (area.x + area.width) - (m.x + m.width);
            let above = m.y - area.y;
            let below = (area.y + area.height) - (m.y + m.height);
            &&& 0 <= left <= right <= left + 1
            &&& 0 <= above <= below <= above + 1
            &&& m.width == size.0 && m.height == size.1
        }),
        ({
            let c = in_the_corner(area, size);
            &&& c.x + c.width == area.x + area.width
            &&& c.y + c.height == area.y + area.height
            &&& c.width == size.0 && c.height == size.1
        }),
{
}

/// What is typed as a command is shown as it is typed.
pub proof fn commands_are_shown_as_typed(app: App)
    ensures
        command_line(app).len() == 4,
        command_line(app)[1].content == "run: "@,
        command_line(app)[2].content == app.launch.command@,
{
}

} // verus!
