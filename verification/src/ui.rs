//! What the screen says about issues and the list.
use vstd::prelude::*;
use crate::app::{App, Mode};
use crate::filters::{FilterKind, Filters};
use crate::linear::{Issue, IssueView};
use crate::markdown::{markdown_events, render, rendered, span, styled_line};
use crate::style::{plain, Color, LineView, SpanView, Style, StyledLine, StyledSpan};
use crate::text::{char_count, decimal, join, owned, push_decimal, repeat, repeated, seq_join, views};

verus! {

pub open spec fn spec_priority_label(p: i64) -> Seq<char> {
    if p == 1 {
        "Urgent"@
    } else if p == 2 {
        "High"@
    } else if p == 3 {
        "Medium"@
    } else if p == 4 {
        "Low"@
    } else {
        "None"@
    }
}

/// The name of priority `p`.
pub fn priority_label(p: i64) -> (r: &'static str)
    ensures
        r@ == spec_priority_label(p),
{
    if p == 1 {
        "Urgent"
    } else if p == 2 {
        "High"
    } else if p == 3 {
        "Medium"
    } else if p == 4 {
        "Low"
    } else {
        "None"
    }
}

pub open spec fn spec_priority_color(p: i64) -> Color {
    if p == 1 {
        Color::Red
    } else if p == 2 {
        Color::Yellow
    } else if p == 3 {
        Color::Cyan
    } else if p == 4 {
        Color::Gray
    } else {
        Color::DarkGray
    }
}

/// The color priority `p` is shown in.
pub fn priority_color(p: i64) -> (r: Color)
    ensures
        r == spec_priority_color(p),
{
    if p == 1 {
        Color::Red
    } else if p == 2 {
        Color::Yellow
    } else if p == 3 {
        Color::Cyan
    } else if p == 4 {
        Color::Gray
    } else {
        Color::DarkGray
    }
}

impl App {
    /// Title of the issue list: the number of issues shown, then each
    /// active team, project and status filter.
    pub open spec fn spec_list_title(&self) -> Seq<char> {
        "Issues ("@ + decimal(self.issues@.len()) + ")"@ + match self.filters.team {
            Some(t) => " | team: "@ + t@,
            None => Seq::empty(),
        } + match self.filters.project {
            Some(p) => " | project: "@ + p@,
            None => Seq::empty(),
        } + if self.filters.status@.len() > 0 {
            " | status: "@ + seq_join(views(self.filters.status@), ", "@)
        } else {
            Seq::empty()
        }
    }

    pub fn list_title(&self) -> (r: String)
        ensures
            r@ == self.spec_list_title(),
    {
        let mut s = owned("Issues (");
        push_decimal(&mut s, self.issues.len() as u64);
        s.append(")");
        let ghost a = s@;
        match &self.filters.team {
            Some(t) => {
                s.append(" | team: ");
                s.append(t.as_str());
            },
            None => {},
        }
        let ghost b = s@;
        match &self.filters.project {
            Some(p) => {
                s.append(" | project: ");
                s.append(p.as_str());
            },
            None => {},
        }
        let ghost c = s@;
        if self.filters.status.len() > 0 {
            s.append(" | status: ");
            let joined = join(&self.filters.status, ", ");
            s.append(joined.as_str());
        }
        proof {
            assert(a + Seq::<char>::empty() =~= a);
            assert(b + Seq::<char>::empty() =~= b);
            assert(c + Seq::<char>::empty() =~= c);
        }
        assert(s@ =~= self.spec_list_title());
        s
    }
}


// ---------------------------------------------------------------------------
// The issue list and the detail view
// ---------------------------------------------------------------------------

/// `s` padded with spaces to at least `width` characters (`{:<width}`).
pub open spec fn pad_right(s: Seq<char>, width: nat) -> Seq<char> {
    if s.len() < width {
        s + repeat(" "@, (width - s.len()) as nat)
    } else {
        s
    }
}

/// Style of field labels.
pub open spec fn label_style() -> Style {
    Style { bold: true, ..plain() }
}

/// Style of the "blocked" markers.
pub open spec fn blocked_style() -> Style {
    Style { fg: Some(Color::Red), bold: true, ..plain() }
}

/// A line of spans in the plain line style.
pub open spec fn line_of(spans: Seq<SpanView>) -> LineView {
    LineView { spans, style: plain() }
}

/// The row of the issue list for `i`: a "!" for a blocked issue, the
/// identifier padded to 8 columns in blue, then the title.
pub open spec fn issue_row_view(i: IssueView) -> LineView {
    line_of(
        seq![
            span(if i.is_blocked() { "! "@ } else { "  "@ }, blocked_style()),
            span(pad_right(i.identifier, 8), Style { fg: Some(Color::Blue), ..plain() }),
            span(i.title, plain()),
        ],
    )
}

/// A "Name: value" line with a bold label.
pub open spec fn field_line(name: Seq<char>, value: Seq<char>) -> LineView {
    line_of(seq![span(name + ": "@, label_style()), span(value, plain())])
}

/// The spans of the state line of `i`, marked when the issue is blocked.
pub open spec fn state_spans(i: IssueView) -> Seq<SpanView> {
    let base = seq![
        span("State: "@, label_style()),
        span(i.state.name + " ["@ + i.state.state_type + "]"@, plain()),
    ];
    if i.is_blocked() {
        base.push(span(" (blocked)"@, blocked_style()))
    } else {
        base
    }
}

/// The field lines of the detail view of `i`, ending in a blank line.
pub open spec fn detail_head(i: IssueView) -> Seq<LineView> {
    seq![
        field_line("Title"@, i.title),
        field_line("ID"@, i.identifier),
        field_line("Team"@, i.team_name + " ("@ + i.team_key + ")"@),
        field_line(
            "Assignee"@,
            match i.assignee {
                Some(a) => a,
                None => "Unassigned"@,
            },
        ),
        line_of(state_spans(i)),
        line_of(
            seq![
                span("Priority: "@, label_style()),
                span(
                    spec_priority_label(i.priority),
                    Style { fg: Some(spec_priority_color(i.priority)), ..plain() },
                ),
            ],
        ),
        field_line("Updated"@, i.updated_at),
        field_line("URL"@, i.url),
        line_of(Seq::empty()),
    ]
}

/// The lines of the detail view of `i`: its fields, a blank line, and the
/// rendered description when there is one.
pub open spec fn detail_view(i: IssueView) -> Seq<LineView> {
    match i.description {
        Some(d) => detail_head(i) + seq![
            styled_line("Description:"@, label_style()),
            line_of(Seq::empty()),
        ] + rendered(markdown_events(d)),
        None => detail_head(i),
    }
}

fn text_span(content: String, style: Style) -> (r: StyledSpan)
    ensures
        r@ == span(content@, style),
{
    StyledSpan { content, style }
}

fn line_from(spans: Vec<StyledSpan>) -> (r: StyledLine)
    ensures
        r@ == line_of(spans.deep_view()),
{
    StyledLine { spans, style: Style::new() }
}

fn field(name: &str, value: String) -> (r: StyledLine)
    ensures
        r@ == field_line(name@, value@),
{
    let mut label = owned(name);
    label.append(": ");
    let mut spans: Vec<StyledSpan> = Vec::new();
    spans.push(text_span(label, Style::new().bold()));
    spans.push(text_span(value, Style::new()));
    let r = line_from(spans);
    assert(r@.spans =~= seq![span(name@ + ": "@, label_style()), span(value@, plain())]);
    r
}

fn concat3(a: &str, b: &str, c: &str, d: &str) -> (r: String)
    ensures
        r@ == a@ + b@ + c@ + d@,
{
    let mut s = owned(a);
    s.append(b);
    s.append(c);
    s.append(d);
    s
}

/// `s` padded with spaces to at least `width` characters.
pub fn padded(s: &str, width: usize) -> (r: String)
    ensures
        r@ == pad_right(s@, width as nat),
{
    let n = char_count(s);
    let mut out = owned(s);
    if n < width {
        let pad = repeated(" ", width - n);
        out.append(pad.as_str());
    }
    out
}

/// The row of the issue list for `issue`.
pub fn issue_row(issue: &Issue) -> (r: StyledLine)
    ensures
        r@ == issue_row_view(issue@),
{
    let marker = if issue.is_blocked() {
        owned("! ")
    } else {
        owned("  ")
    };
    let mut spans: Vec<StyledSpan> = Vec::new();
    spans.push(text_span(marker, Style::new().fg(Color::Red).bold()));
    spans.push(text_span(padded(issue.identifier.as_str(), 8), Style::new().fg(Color::Blue)));
    spans.push(text_span(issue.title.clone(), Style::new()));
    let r = line_from(spans);
    assert(r@.spans =~= issue_row_view(issue@).spans);
    r
}

fn push_line(v: &mut Vec<StyledLine>, l: StyledLine)
    ensures
        final(v).deep_view() == old(v).deep_view().push(l@),
{
    let ghost prev = v.deep_view();
    let ghost lv = l@;
    v.push(l);
    assert(v.deep_view() =~= prev.push(lv));
}

/// The lines of the detail view of `issue`.
pub fn issue_detail(issue: &Issue) -> (r: Vec<StyledLine>)
    ensures
        r.deep_view() == detail_view(issue@),
{
    let i = issue;
    let mut lines: Vec<StyledLine> = Vec::new();
    let l0 = field("Title", i.title.clone());
    let l1 = field("ID", i.identifier.clone());
    let l2 = field("Team", concat3(i.team.name.as_str(), " (", i.team.key.as_str(), ")"));
    let assignee = match &i.assignee {
        Some(a) => a.name.clone(),
        None => owned("Unassigned"),
    };
    let l3 = field("Assignee", assignee);
    let mut st: Vec<StyledSpan> = Vec::new();
    st.push(text_span(owned("State: "), Style::new().bold()));
    st.push(
        text_span(
            concat3(i.state.name.as_str(), " [", i.state.state_type.as_str(), "]"),
            Style::new(),
        ),
    );
    let ghost base = st.deep_view();
    if i.is_blocked() {
        st.push(text_span(owned(" (blocked)"), Style::new().fg(Color::Red).bold()));
        assert(st.deep_view() =~= base.push(span(" (blocked)"@, blocked_style())));
    }
    assert(st.deep_view() =~= state_spans(i@));
    let l4 = line_from(st);
    let mut ps: Vec<StyledSpan> = Vec::new();
    ps.push(text_span(owned("Priority: "), Style::new().bold()));
    ps.push(text_span(owned(priority_label(i.priority)), Style::new().fg(priority_color(i.priority))));
    let l5 = line_from(ps);
    let l6 = field("Updated", i.updated_at.clone());
    let l7 = field("URL", i.url.clone());
    let l8 = line_from(Vec::new());
    let ghost h = detail_head(i@);
    assert(l0@ == h[0]);
    assert(l1@ == h[1]);
    assert(l2@ == h[2]);
    assert(l3@ == h[3]);
    assert(l4@ == h[4]);
    assert(l5@.spans =~= h[5].spans);
    assert(l5@ == h[5]);
    assert(l6@ == h[6]);
    assert(l7@ == h[7]);
    assert(l8@.spans =~= Seq::<SpanView>::empty());
    assert(l8@ == h[8]);
    push_line(&mut lines, l0);
    push_line(&mut lines, l1);
    push_line(&mut lines, l2);
    push_line(&mut lines, l3);
    push_line(&mut lines, l4);
    push_line(&mut lines, l5);
    push_line(&mut lines, l6);
    push_line(&mut lines, l7);
    push_line(&mut lines, l8);
    assert(lines.deep_view() =~= h);
    match &i.description {
        Some(d) => {
            let mut dv: Vec<StyledSpan> = Vec::new();
            dv.push(text_span(owned("Description:"), Style::new()));
            let dl = StyledLine { spans: dv, style: Style::new().bold() };
            proof {
                reveal_strlit("Description:");
                crate::text::lemma_lines_single("Description:"@);
                assert(dl@.spans =~= styled_line("Description:"@, label_style()).spans);
            }
            push_line(&mut lines, dl);
            let blank = line_from(Vec::new());
            assert(blank@.spans =~= Seq::<SpanView>::empty());
            push_line(&mut lines, blank);
            let body = render(d.as_str());
            let ghost before = lines.deep_view();
            let ghost bv = body.deep_view();
            let mut rest = body;
            lines.append(&mut rest);
            assert(lines.deep_view() =~= before + bv);
            assert(lines.deep_view() =~= detail_view(i@));
        },
        None => {},
    }
    lines
}

// ---------------------------------------------------------------------------
// Popups and footer
// ---------------------------------------------------------------------------

/// Title of the editor of filter dimension `kind`.
pub open spec fn spec_filter_title(kind: FilterKind) -> Seq<char> {
    match kind {
        FilterKind::Team => "Filter by Team"@,
        FilterKind::Project => "Filter by Project"@,
        FilterKind::Status => "Filter by Status (space: toggle, enter: apply)"@,
        FilterKind::Blocked => "Filter by Blocked"@,
    }
}

pub fn filter_title(kind: FilterKind) -> (r: &'static str)
    ensures
        r@ == spec_filter_title(kind),
{
    match kind {
        FilterKind::Team => "Filter by Team",
        FilterKind::Project => "Filter by Project",
        FilterKind::Status => "Filter by Status (space: toggle, enter: apply)",
        FilterKind::Blocked => "Filter by Blocked",
    }
}

/// Row `i` of the editor of dimension `kind`: for a multi-select dimension a
/// checkbox ("[x] " when ticked, "[ ] " otherwise or past the boxes' end)
/// then the option, else just the option.
pub open spec fn filter_row_text(kind: FilterKind, option: Seq<char>, checked: Seq<bool>, i: int) -> Seq<
    char,
> {
    if kind.spec_is_multi() {
        (if 0 <= i < checked.len() && checked[i] {
            "[x] "@
        } else {
            "[ ] "@
        }) + option
    } else {
        option
    }
}

/// The rows of the editor of dimension `kind`.
pub fn filter_rows(kind: FilterKind, options: &Vec<String>, checked: &Vec<bool>) -> (r: Vec<String>)
    ensures
        r@.len() == options@.len(),
        forall|i: int|
            0 <= i < options@.len() ==> #[trigger] r@[i]@ == filter_row_text(
                kind,
                options@[i]@,
                checked@,
                i,
            ),
{
    let mut rows: Vec<String> = Vec::new();
    let mut i: usize = 0;
    while i < options.len()
        invariant
            i <= options.len(),
            rows@.len() == i,
            forall|j: int|
                0 <= j < i ==> #[trigger] rows@[j]@ == filter_row_text(
                    kind,
                    options@[j]@,
                    checked@,
                    j,
                ),
        decreases options.len() - i,
    {
        let row = if kind.is_multi() {
            let mut s = if i < checked.len() && checked[i] {
                owned("[x] ")
            } else {
                owned("[ ] ")
            };
            s.append(options[i].as_str());
            s
        } else {
            options[i].clone()
        };
        rows.push(row);
        i = i + 1;
    }
    rows
}

/// Row `kind` of the filter menu: the dimension and its current value(s).
pub fn filter_menu_row(filters: &Filters, kind: FilterKind) -> (r: String)
    ensures
        r@ == kind.spec_label() + ": "@ + filters.spec_summary(kind),
{
    let mut s = owned(kind.label());
    s.append(": ");
    let v = filters.summary(kind);
    s.append(v.as_str());
    s
}

/// The size of a popup of `rows` rows in an area of the given size: two rows
/// of border added to the row count taken as a `u16`, at most the area less
/// two, at least 3 high; 50 wide at most the area less two, at least 20.
pub open spec fn popup_size_spec(rows: usize, area_width: u16, area_height: u16) -> (u16, u16) {
    let h = rows % 65536 + 2;
    let h_cap = if area_height >= 2 { area_height - 2 } else { 0 };
    let h1 = if h < h_cap { h } else { h_cap };
    let w_cap = if area_width >= 2 { area_width - 2 } else { 0 };
    let w1 = if 50 < w_cap { 50 } else { w_cap };
    ((if h1 > 3 { h1 } else { 3 }) as u16, (if w1 > 20 { w1 } else { 20 }) as u16)
}

/// The size (height, width) of a popup of `rows` rows.
pub fn popup_size(rows: usize, area_width: u16, area_height: u16) -> (r: (u16, u16))
    requires
        rows % 65536 + 2 <= u16::MAX,
    ensures
        r == popup_size_spec(rows, area_width, area_height),
{
    let low: u16 = (rows % 65536) as u16;
    let h: u16 = low + 2;
    let h_cap = area_height.saturating_sub(2);
    let h1 = if h < h_cap { h } else { h_cap };
    let w_cap = area_width.saturating_sub(2);
    let w1: u16 = if 50 < w_cap { 50 } else { w_cap };
    (if h1 > 3 { h1 } else { 3 }, if w1 > 20 { w1 } else { 20 })
}

/// The style of the highlighted row of a list: black on white, bold.
pub open spec fn highlight_style() -> Style {
    Style { fg: Some(Color::Black), bg: Some(Color::White), bold: true, ..plain() }
}

/// The style of row `k` of a list whose cursor is on row `selected`: the
/// highlight on the cursor's row, nothing set on the others.
pub fn row_style(k: usize, selected: usize) -> (s: Style)
    ensures
        s == if k == selected {
            highlight_style()
        } else {
            plain()
        },
{
    if k == selected {
        Style::new().fg(Color::Black).bg(Color::White).bold()
    } else {
        Style::new()
    }
}

/// The key help shown at the bottom in `mode`.
pub open spec fn spec_footer(mode: &Mode) -> Seq<char> {
    match mode {
        Mode::Normal => "j/k: navigate   enter: details   f: filters   o: sort   s: status   n: new   r: refresh   q: quit"@,
        Mode::Detail => "j/k: next/prev issue   d/u: page   g/G: top/bottom   s: status   esc: back"@,
        Mode::FilterMenu { .. } => "j/k: navigate   enter: edit   c: clear filters   esc: close"@,
        Mode::Filter { kind, .. } => if kind.spec_is_multi() {
            "j/k: navigate   space: toggle   enter: apply   esc: cancel"@
        } else {
            "j/k: navigate   enter: select   esc: cancel"@
        },
        Mode::ExtensionOutput { .. } => "j/k: scroll   d/u: page   g/G: top/bottom   K: kill   esc: close"@,
        Mode::StatusPicker { .. } => "j/k: navigate   enter: apply   esc: cancel"@,
        Mode::NewIssueTitle { .. } => "type a title   enter: create   esc: cancel"@,
    }
}

/// The key help shown at the bottom in `mode`.
pub fn footer(mode: &Mode) -> (r: &'static str)
    ensures
        r@ == spec_footer(mode),
{
    match mode {
        Mode::Normal => "j/k: navigate   enter: details   f: filters   o: sort   s: status   n: new   r: refresh   q: quit",
        Mode::Detail => "j/k: next/prev issue   d/u: page   g/G: top/bottom   s: status   esc: back",
        Mode::FilterMenu { .. } => "j/k: navigate   enter: edit   c: clear filters   esc: close",
        Mode::Filter { kind, .. } => if kind.is_multi() {
            "j/k: navigate   space: toggle   enter: apply   esc: cancel"
        } else {
            "j/k: navigate   enter: select   esc: cancel"
        },
        Mode::ExtensionOutput { .. } => "j/k: scroll   d/u: page   g/G: top/bottom   K: kill   esc: close",
        Mode::StatusPicker { .. } => "j/k: navigate   enter: apply   esc: cancel",
        Mode::NewIssueTitle { .. } => "type a title   enter: create   esc: cancel",
    }
}

} // verus!
