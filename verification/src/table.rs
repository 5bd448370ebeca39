//! Lists as tables of text: left-aligned columns two spaces apart.

use vstd::prelude::*;

use crate::model::{AgentState, PaneInfo};
use crate::protocol::{TabInfo, WorkspaceInfo};
use crate::text::{decimal, length, number, repeat, signed, signed_number, texts, times, trim_end, trimmed_end};

verus! {

broadcast use vstd::string::group_string_axioms;

/// The word for what an agent does.
pub open spec fn state_word(state: AgentState) -> Seq<char> {
    match state {
        AgentState::Unknown => "unknown"@,
        AgentState::Working => "working"@,
        AgentState::Blocked => "blocked"@,
        AgentState::Done => "done"@,
        AgentState::Idle => "idle"@,
    }
}

/// The word for what an agent does.
pub fn state_label(state: AgentState) -> (r: &'static str)
    ensures
        r@ == state_word(state),
{
    match state {
        AgentState::Unknown => "unknown",
        AgentState::Working => "working",
        AgentState::Blocked => "blocked",
        AgentState::Done => "done",
        AgentState::Idle => "idle",
    }
}

// ---- tables --------------------------------------------------------------

/// The cells of each row, over characters.
pub open spec fn cells_of(rows: Seq<Vec<String>>) -> Seq<Seq<Seq<char>>> {
    Seq::new(rows.len(), |i: int| texts(rows[i]@))
}

/// The length of the longest cell in column `col` of the first `n` rows; a row
/// may end before it.
pub open spec fn column_width(rows: Seq<Seq<Seq<char>>>, col: int, n: int) -> nat
    decreases n,
{
    if n <= 0 {
        0
    } else if col < rows[n - 1].len() && rows[n - 1][col].len() > column_width(rows, col, n - 1) {
        rows[n - 1][col].len()
    } else {
        column_width(rows, col, n - 1)
    }
}

/// The first `n` cells of a row side by side, each but the row's last filled up
/// to its column's width.
pub open spec fn row_text(cells: Seq<Seq<char>>, widths: Seq<nat>, n: int) -> Seq<char>
    decreases n,
{
    if n <= 0 {
        Seq::empty()
    } else {
        let gap = if n > 1 {
            "  "@
        } else {
            Seq::empty()
        };
        let cell = cells[n - 1];
        let fill = if n < cells.len() && cell.len() < widths[n - 1] {
            times(' ', widths[n - 1] - cell.len())
        } else {
            Seq::empty()
        };
        row_text(cells, widths, n - 1) + gap + cell + fill
    }
}

/// The widths of the columns of a table.
pub open spec fn widths_of(rows: Seq<Seq<Seq<char>>>, cols: nat) -> Seq<nat> {
    Seq::new(cols, |c: int| column_width(rows, c, rows.len() as int))
}

/// A row as a line, without white space at its end.
pub open spec fn row_line(cells: Seq<Seq<char>>, widths: Seq<nat>) -> Seq<char> {
    trimmed_end(row_text(cells, widths, cells.len() as int)).push('\n')
}

/// The first `n` rows as lines.
pub open spec fn rows_text(rows: Seq<Seq<Seq<char>>>, widths: Seq<nat>, n: int) -> Seq<char>
    decreases n,
{
    if n <= 0 {
        Seq::empty()
    } else {
        rows_text(rows, widths, n - 1) + row_line(rows[n - 1], widths)
    }
}

/// A table, its headers first.
pub open spec fn table_text(rows: Seq<Seq<Seq<char>>>, cols: nat) -> Seq<char> {
    rows_text(rows, widths_of(rows, cols), rows.len() as int)
}

/// Whether no row has more than `cols` cells.
pub open spec fn within(rows: Seq<Seq<Seq<char>>>, cols: nat) -> bool {
    forall|i: int| 0 <= i < rows.len() ==> (#[trigger] rows[i]).len() <= cols
}

/// The cells of the headers.
pub open spec fn header_cells(headers: Seq<&str>) -> Seq<Seq<char>> {
    Seq::new(headers.len(), |i: int| headers[i]@)
}

fn measure(rows: &Vec<Vec<String>>, col: usize) -> (r: usize)
    ensures
        r == column_width(cells_of(rows@), col as int, rows@.len() as int),
{
    let ghost all = cells_of(rows@);
    let mut most: usize = 0;
    for i in 0..rows.len()
        invariant
            all == cells_of(rows@),
            most == column_width(all, col as int, i as int),
    {
        assert(all[i as int].len() == rows@[i as int]@.len());
        if col < rows[i].len() {
            assert(all[i as int][col as int] == rows@[i as int]@[col as int]@);
            let n: usize = length(rows[i][col].as_str());
            if n > most {
                most = n;
            }
        }
    }
    most
}

fn write_row(out: &mut String, cells: &Vec<String>, widths: &Vec<usize>)
    requires
        cells@.len() <= widths@.len(),
    ensures
        final(out)@ == old(out)@ + row_line(
            texts(cells@),
            Seq::new(widths@.len(), |c: int| widths@[c] as nat),
        ),
{
    let ghost row = texts(cells@);
    let ghost sizes = Seq::new(widths@.len(), |c: int| widths@[c] as nat);
    let mut line: String = String::new();
    for i in 0..cells.len()
        invariant
            row == texts(cells@),
            sizes == Seq::new(widths@.len(), |c: int| widths@[c] as nat),
            cells@.len() <= widths@.len(),
            line@ == row_text(row, sizes, i as int),
    {
        let ghost had = line@;
        if i > 0 {
            line.append("  ");
        }
        line.append(cells[i].as_str());
        let ghost whole = line@;
        if i + 1 < cells.len() {
            let n: usize = length(cells[i].as_str());
            if n < widths[i] {
                let fill: String = repeat(' ', widths[i] - n);
                line.append(fill.as_str());
            }
        }
        assert(row[i as int] == cells@[i as int]@);
        assert(sizes[i as int] == widths@[i as int]);
        assert(line@ =~= row_text(row, sizes, i + 1));
    }
    let text: String = trim_end(line.as_str());
    let ghost before = out@;
    out.append(text.as_str());
    out.push('\n');
    assert(out@ =~= before + row_line(row, sizes));
}

/// Left-aligned columns two spaces apart, under `headers`. The last cell of a row
/// is not filled up, and no line ends in white space.
pub fn table(headers: &[&str], rows: &[Vec<String>]) -> (r: String)
    requires
        within(cells_of(rows@), headers@.len()),
    ensures
        r@ == table_text(seq![header_cells(headers@)] + cells_of(rows@), headers@.len()),
{
    let mut lines: Vec<Vec<String>> = Vec::new();
    let mut header: Vec<String> = Vec::new();
    for c in 0..headers.len()
        invariant
            texts(header@) == header_cells(headers@).take(c as int),
    {
        let ghost had = texts(header@);
        header.push(headers[c].to_owned());
        assert(texts(header@) =~= had.push(headers@[c as int]@));
        assert(texts(header@) =~= header_cells(headers@).take(c + 1));
    }
    assert(texts(header@) =~= header_cells(headers@));
    let ghost all = seq![header_cells(headers@)] + cells_of(rows@);
    assert(cells_of(lines@) =~= Seq::empty());
    add_row(&mut lines, header);
    assert(cells_of(lines@) =~= all.take(1));
    for i in 0..rows.len()
        invariant
            all == seq![header_cells(headers@)] + cells_of(rows@),
            cells_of(lines@) == all.take(i + 1),
    {
        let ghost row = texts(rows@[i as int]@);
        add_row(&mut lines, copied(&rows[i]));
        assert(all[i + 1] == row);
        assert(cells_of(lines@) =~= all.take(i + 2));
    }
    assert(cells_of(lines@) =~= all);
    write_table(&lines, headers.len())
}

fn copied(row: &Vec<String>) -> (r: Vec<String>)
    ensures
        texts(r@) == texts(row@),
{
    let mut out: Vec<String> = Vec::new();
    for i in 0..row.len()
        invariant
            texts(out@) == texts(row@).take(i as int),
    {
        let ghost had = texts(out@);
        out.push(row[i].clone());
        assert(texts(out@) =~= had.push(row@[i as int]@));
        assert(texts(out@) =~= texts(row@).take(i + 1));
    }
    assert(texts(out@) =~= texts(row@));
    out
}

fn write_table(rows: &Vec<Vec<String>>, cols: usize) -> (r: String)
    requires
        within(cells_of(rows@), cols as nat),
    ensures
        r@ == table_text(cells_of(rows@), cols as nat),
{
    let ghost all = cells_of(rows@);
    let ghost sizes = widths_of(all, cols as nat);
    let mut widths: Vec<usize> = Vec::new();
    for c in 0..cols
        invariant
            all == cells_of(rows@),
            widths@.len() == c,
            forall|k: int|
                0 <= k < c ==> widths@[k] == column_width(all, k, rows@.len() as int),
    {
        widths.push(measure(rows, c));
    }
    assert(Seq::new(widths@.len(), |c: int| widths@[c] as nat) =~= sizes);
    let mut out: String = String::new();
    for i in 0..rows.len()
        invariant
            all == cells_of(rows@),
            within(all, cols as nat),
            widths@.len() == cols,
            sizes == Seq::new(widths@.len(), |c: int| widths@[c] as nat),
            out@ == rows_text(all, sizes, i as int),
    {
        assert(all[i as int].len() <= cols);
        assert(all[i as int] == texts(rows@[i as int]@));
        write_row(&mut out, &rows[i], &widths);
    }
    out
}

fn add_row(rows: &mut Vec<Vec<String>>, row: Vec<String>)
    ensures
        cells_of(final(rows)@) == cells_of(old(rows)@).push(texts(row@)),
{
    let ghost had = cells_of(rows@);
    let ghost cells = texts(row@);
    rows.push(row);
    assert(cells_of(rows@) =~= had.push(cells));
}

// ---- lists ---------------------------------------------------------------

/// The rows of a list of workspaces.
pub open spec fn workspace_cells(items: Seq<WorkspaceInfo>) -> Seq<Seq<Seq<char>>> {
    seq![seq!["ID"@, "NAME"@, "DIR"@]] + Seq::new(
        items.len(),
        |i: int| seq![decimal(items[i].id.0 as nat), items[i].name@, items[i].dir@],
    )
}

/// The rows of a list of tabs; the active one has a star.
pub open spec fn tab_cells(items: Seq<TabInfo>) -> Seq<Seq<Seq<char>>> {
    seq![seq!["ID"@, "NAME"@, "ACTIVE"@]] + Seq::new(
        items.len(),
        |i: int|
            seq![
                decimal(items[i].id.0 as nat),
                items[i].name@,
                if items[i].active {
                    "*"@
                } else {
                    ""@
                },
            ],
    )
}

/// The cells of a pane; what it lacks is a dash.
pub open spec fn pane_cell(p: PaneInfo) -> Seq<Seq<char>> {
    seq![
        decimal(p.id.0 as nat),
        p.title@,
        match p.agent {
            Some(a) => a@,
            None => "-"@,
        },
        state_word(p.state),
        match p.exited {
            Some(code) => signed(code as int),
            None => "-"@,
        },
    ]
}

/// The rows of a list of panes.
pub open spec fn pane_cells(items: Seq<PaneInfo>) -> Seq<Seq<Seq<char>>> {
    seq![seq!["ID"@, "TITLE"@, "AGENT"@, "STATE"@, "EXIT"@]] + Seq::new(
        items.len(),
        |i: int| pane_cell(items[i]),
    )
}

/// A list of workspaces as a table.
pub fn workspaces(items: &[WorkspaceInfo]) -> (r: String)
    ensures
        r@ == table_text(workspace_cells(items@), 3),
{
    let mut rows: Vec<Vec<String>> = Vec::new();
    let ghost all = workspace_cells(items@);
    assert(cells_of(rows@) =~= all.subrange(1, 1));
    for i in 0..items.len()
        invariant
            all == workspace_cells(items@),
            cells_of(rows@) == all.subrange(1, i + 1),
    {
        let row: Vec<String> = vec![
            number(items[i].id.0),
            items[i].name.clone(),
            items[i].dir.clone(),
        ];
        assert(texts(row@) =~= workspace_cells(items@)[i + 1]);
        add_row(&mut rows, row);
        assert(cells_of(rows@) =~= all.subrange(1, i + 2));
    }
    let headers: [&str; 3] = ["ID", "NAME", "DIR"];
    assert(header_cells(headers@) =~= all[0]);
    assert(seq![header_cells(headers@)] + cells_of(rows@) =~= all);
    table(&headers, rows.as_slice())
}

/// A list of tabs as a table.
pub fn tabs(items: &[TabInfo]) -> (r: String)
    ensures
        r@ == table_text(tab_cells(items@), 3),
{
    let mut rows: Vec<Vec<String>> = Vec::new();
    let ghost all = tab_cells(items@);
    assert(cells_of(rows@) =~= all.subrange(1, 1));
    for i in 0..items.len()
        invariant
            all == tab_cells(items@),
            cells_of(rows@) == all.subrange(1, i + 1),
    {
        let mark: &'static str = if items[i].active {
            "*"
        } else {
            ""
        };
        let row: Vec<String> = vec![number(items[i].id.0), items[i].name.clone(), mark.to_owned()];
        assert(texts(row@) =~= tab_cells(items@)[i + 1]);
        add_row(&mut rows, row);
        assert(cells_of(rows@) =~= all.subrange(1, i + 2));
    }
    let headers: [&str; 3] = ["ID", "NAME", "ACTIVE"];
    assert(header_cells(headers@) =~= all[0]);
    assert(seq![header_cells(headers@)] + cells_of(rows@) =~= all);
    table(&headers, rows.as_slice())
}

/// A list of panes as a table.
pub fn panes(items: &[PaneInfo]) -> (r: String)
    ensures
        r@ == table_text(pane_cells(items@), 5),
{
    let mut rows: Vec<Vec<String>> = Vec::new();
    let ghost all = pane_cells(items@);
    assert(cells_of(rows@) =~= all.subrange(1, 1));
    for i in 0..items.len()
        invariant
            all == pane_cells(items@),
            cells_of(rows@) == all.subrange(1, i + 1),
    {
        let agent: String = match &items[i].agent {
            Some(a) => a.clone(),
            None => "-".to_owned(),
        };
        let exit: String = match items[i].exited {
            Some(code) => signed_number(code),
            None => "-".to_owned(),
        };
        let row: Vec<String> = vec![
            number(items[i].id.0),
            items[i].title.clone(),
            agent,
            state_label(items[i].state).to_owned(),
            exit,
        ];
        assert(texts(row@) =~= pane_cell(items@[i as int]));
        add_row(&mut rows, row);
        assert(cells_of(rows@) =~= all.subrange(1, i + 2));
    }
    let headers: [&str; 5] = ["ID", "TITLE", "AGENT", "STATE", "EXIT"];
    assert(header_cells(headers@) =~= all[0]);
    assert(seq![header_cells(headers@)] + cells_of(rows@) =~= all);
    table(&headers, rows.as_slice())
}

// ---- laws ----------------------------------------------------------------

proof fn width_covers(rows: Seq<Seq<Seq<char>>>, col: int, n: int, i: int)
    requires
        0 <= i < n,
        col < rows[i].len(),
    ensures
        rows[i][col].len() <= column_width(rows, col, n),
    decreases n,
{
    if i < n - 1 {
        width_covers(rows, col, n - 1, i);
    }
}

/// Where column `col` starts: after the widths of those before it, and two more
/// for each.
pub open spec fn column_start(widths: Seq<nat>, col: int) -> nat
    decreases col,
{
    if col <= 0 {
        0
    } else {
        column_start(widths, col - 1) + widths[col - 1] + 2
    }
}

proof fn row_reaches(cells: Seq<Seq<char>>, widths: Seq<nat>, n: int)
    requires
        0 < n < cells.len() <= widths.len(),
        forall|k: int| 0 <= k < cells.len() ==> (#[trigger] cells[k]).len() <= widths[k],
    ensures
        row_text(cells, widths, n).len() + 2 == column_start(widths, n),
    decreases n,
{
    reveal_strlit("  ");
    assert(cells[n - 1].len() <= widths[n - 1]);
    if n > 1 {
        row_reaches(cells, widths, n - 1);
    } else {
        assert(row_text(cells, widths, 0) == Seq::<char>::empty());
        assert(column_start(widths, 0) == 0);
    }
}

proof fn row_keeps(cells: Seq<Seq<char>>, widths: Seq<nat>, n: int, m: int)
    requires
        0 <= n <= m,
    ensures
        row_text(cells, widths, n).len() <= row_text(cells, widths, m).len(),
        row_text(cells, widths, m).take(row_text(cells, widths, n).len() as int) =~= row_text(
            cells,
            widths,
            n,
        ),
    decreases m - n,
{
    if n < m {
        row_keeps(cells, widths, n, m - 1);
        let part = row_text(cells, widths, m - 1);
        assert(row_text(cells, widths, m).take(part.len() as int) =~= part);
        let len = row_text(cells, widths, n).len() as int;
        assert(row_text(cells, widths, m).take(len) =~= part.take(len));
    }
}

proof fn dark_stays(s: Seq<char>, i: int)
    requires
        0 <= i < s.len(),
        !crate::text::white(s[i]),
    ensures
        i < trimmed_end(s).len(),
        trimmed_end(s)[i] == s[i],
    decreases s.len(),
{
    if crate::text::white(s.last()) {
        assert(s.drop_last()[i] == s[i]);
        dark_stays(s.drop_last(), i);
    }
}

/// The columns stand under each other: whatever a cell shows stands where its
/// column starts, in every row, a row that ends early too.
pub proof fn columns_align(rows: Seq<Seq<Seq<char>>>, cols: nat, i: int, col: int, at: int)
    requires
        within(rows, cols),
        0 <= i < rows.len(),
        0 <= col < rows[i].len(),
        0 <= at < rows[i][col].len(),
        !crate::text::white(rows[i][col][at]),
    ensures
        ({
            let widths = widths_of(rows, cols);
            let place = column_start(widths, col) + at;
            &&& place + 1 < row_line(rows[i], widths).len()
            &&& row_line(rows[i], widths)[place] == rows[i][col][at]
        }),
{
    let widths = widths_of(rows, cols);
    let cells = rows[i];
    assert forall|k: int| 0 <= k < cells.len() implies (#[trigger] cells[k]).len() <= widths[k] by {
        width_covers(rows, k, rows.len() as int, i);
    }
    reveal_strlit("  ");
    if col > 0 {
        row_reaches(cells, widths, col);
    }
    let place = column_start(widths, col) + at;
    let part = row_text(cells, widths, col + 1);
    assert(row_text(cells, widths, 0) == Seq::<char>::empty());
    assert(part[place] == cells[col][at]);
    row_keeps(cells, widths, col + 1, cells.len() as int);
    let whole = row_text(cells, widths, cells.len() as int);
    assert(whole.take(part.len() as int)[place] == part[place]);
    dark_stays(whole, place);
}

/// A row is one line, where no cell holds a line break.
pub proof fn rows_are_lines(cells: Seq<Seq<char>>, widths: Seq<nat>)
    requires
        forall|i: int| 0 <= i < cells.len() ==> !(#[trigger] cells[i]).contains('\n'),
    ensures
        row_line(cells, widths).last() == '\n',
        !row_line(cells, widths).drop_last().contains('\n'),
{
    let whole = row_text(cells, widths, cells.len() as int);
    row_is_unbroken(cells, widths, cells.len() as int);
    trimming_keeps_the_front(whole);
    let line = row_line(cells, widths).drop_last();
    assert(line =~= trimmed_end(whole));
    if line.contains('\n') {
        let i = choose|i: int| 0 <= i < line.len() && line[i] == '\n';
        assert(whole[i] == line[i]);
    }
}

proof fn row_is_unbroken(cells: Seq<Seq<char>>, widths: Seq<nat>, n: int)
    requires
        n <= cells.len(),
        forall|i: int| 0 <= i < cells.len() ==> !(#[trigger] cells[i]).contains('\n'),
    ensures
        !row_text(cells, widths, n).contains('\n'),
    decreases n,
{
    if n > 0 {
        reveal_strlit("  ");
        row_is_unbroken(cells, widths, n - 1);
        let part = row_text(cells, widths, n - 1);
        let whole = row_text(cells, widths, n);
        let cell = cells[n - 1];
        let gap: int = if n > 1 {
            2
        } else {
            0
        };
        assert forall|i: int| 0 <= i < whole.len() implies whole[i] != '\n' by {
            if i < part.len() {
                assert(part.contains(part[i]));
                assert(whole[i] == part[i]);
            } else if part.len() + gap <= i < part.len() + gap + cell.len() {
                assert(cell.contains(cell[i - part.len() - gap]));
                assert(whole[i] == cell[i - part.len() - gap]);
            }
        }
    }
}

proof fn trimming_keeps_the_front(s: Seq<char>)
    ensures
        trimmed_end(s).len() <= s.len(),
        trimmed_end(s) =~= s.take(trimmed_end(s).len() as int),
    decreases s.len(),
{
    if s.len() > 0 && crate::text::white(s.last()) {
        trimming_keeps_the_front(s.drop_last());
    }
}

/// No line of a table ends in white space.
pub proof fn rows_have_no_trailing_blanks(cells: Seq<Seq<char>>, widths: Seq<nat>)
    ensures
        row_line(cells, widths).last() == '\n',
        row_line(cells, widths).len() > 1 ==> !crate::text::white(
            row_line(cells, widths)[row_line(cells, widths).len() - 2],
        ),
{
    trimmed_ends_dark(row_text(cells, widths, cells.len() as int));
}

proof fn trimmed_ends_dark(s: Seq<char>)
    ensures
        trimmed_end(s).len() > 0 ==> !crate::text::white(trimmed_end(s).last()),
    decreases s.len(),
{
    if s.len() > 0 && crate::text::white(s.last()) {
        trimmed_ends_dark(s.drop_last());
    }
}

/// The word for a state tells the state: no two states are listed under one word,
/// and each word is the state's own.
pub proof fn words_tell_states_apart(a: AgentState, b: AgentState)
    ensures
        state_word(a) == state_word(b) ==> a == b,
        a == AgentState::Working ==> state_word(a) == "working"@,
        a == AgentState::Blocked ==> state_word(a) == "blocked"@,
        a == AgentState::Done ==> state_word(a) == "done"@,
        a == AgentState::Idle ==> state_word(a) == "idle"@,
        a == AgentState::Unknown ==> state_word(a) == "unknown"@,
{
    reveal_strlit("working");
    reveal_strlit("blocked");
    reveal_strlit("done");
    reveal_strlit("idle");
    reveal_strlit("unknown");
    let word = state_word(a);
    assert("working"@[0] == 'w' && "blocked"@[0] == 'b' && "done"@[0] == 'd' && "idle"@[0] == 'i'
        && "unknown"@[0] == 'u');
}

/// Every item of a list has its row, in order, under the headers: a workspace shows
/// its number, its name and its directory; a tab its number, its name and a mark if
/// it is active, and no mark else; a pane its number, its title, its agent, its
/// state and how it exited.
pub proof fn every_item_has_its_row(
    workspaces: Seq<WorkspaceInfo>,
    tabs: Seq<TabInfo>,
    panes: Seq<PaneInfo>,
    i: int,
)
    ensures
        workspace_cells(workspaces).len() == workspaces.len() + 1,
        tab_cells(tabs).len() == tabs.len() + 1,
        pane_cells(panes).len() == panes.len() + 1,
        0 <= i < workspaces.len() ==> workspace_cells(workspaces)[i + 1] == seq![
            decimal(workspaces[i].id.0 as nat),
            workspaces[i].name@,
            workspaces[i].dir@,
        ],
        0 <= i < tabs.len() ==> tab_cells(tabs)[i + 1][0] == decimal(tabs[i].id.0 as nat)
            && tab_cells(tabs)[i + 1][1] == tabs[i].name@ && (tabs[i].active
            == (tab_cells(tabs)[i + 1][2].len() > 0)),
        0 <= i < panes.len() ==> pane_cells(panes)[i + 1][0] == decimal(panes[i].id.0 as nat)
            && pane_cells(panes)[i + 1][1] == panes[i].title@ && (panes[i].agent matches Some(a)
            ==> pane_cells(panes)[i + 1][2] == a@) && pane_cells(panes)[i + 1][3] == state_word(
            panes[i].state,
        ) && (panes[i].exited matches Some(code) ==> pane_cells(panes)[i + 1][4] == signed(
            code as int,
        )),
{
    reveal_strlit("*");
    reveal_strlit("");
}

} // verus!
