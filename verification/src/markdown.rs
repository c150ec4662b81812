//! Rendering of Markdown issue descriptions into styled terminal lines.
use vstd::prelude::*;
use pulldown_cmark::{CodeBlockKind, Event, Parser, Tag, TagEnd};
use crate::style::{plain, Color, LineView, SpanView, Style, StyledLine, StyledSpan};
use crate::text::{decimal, lines, lines_of, owned, push_decimal, repeat, repeated, split, split_char, views, char_count};

verus! {

/// The opening tag of a Markdown element, as far as rendering tells them apart.
#[derive(Debug)]
pub enum MdTag {
    /// A heading of the given level (1 to 6).
    Heading(usize),
    Emphasis,
    Strong,
    Strikethrough,
    /// A code block; the info string of a fenced block, `None` when indented.
    CodeBlock(Option<String>),
    Item,
    /// A list, with the number of its first item when ordered.
    List(Option<u64>),
    Link,
    BlockQuote,
    Paragraph,
    Other,
}

/// The closing tag of a Markdown element.
#[derive(Debug)]
pub enum MdTagEnd {
    Heading,
    Emphasis,
    Strong,
    Strikethrough,
    Link,
    CodeBlock,
    Item,
    List,
    Paragraph,
    BlockQuote,
    Other,
}

/// One event of a Markdown document, in document order.
#[derive(Debug)]
pub enum MdEvent {
    Start(MdTag),
    End(MdTagEnd),
    Text(String),
    Code(String),
    SoftBreak,
    HardBreak,
    Rule,
    Other,
}

/// The mathematical content of an opening tag.
pub enum TagView {
    Heading(usize),
    Emphasis,
    Strong,
    Strikethrough,
    CodeBlock(Option<Seq<char>>),
    Item,
    List(Option<u64>),
    Link,
    BlockQuote,
    Paragraph,
    Other,
}

/// The mathematical content of an event.
pub enum EventView {
    Start(TagView),
    End(MdTagEnd),
    Text(Seq<char>),
    Code(Seq<char>),
    SoftBreak,
    HardBreak,
    Rule,
    Other,
}

impl View for MdTag {
    type V = TagView;

    open spec fn view(&self) -> TagView {
        match self {
            MdTag::Heading(l) => TagView::Heading(*l),
            MdTag::Emphasis => TagView::Emphasis,
            MdTag::Strong => TagView::Strong,
            MdTag::Strikethrough => TagView::Strikethrough,
            MdTag::CodeBlock(info) => TagView::CodeBlock(
                match info {
                    Some(s) => Some(s@),
                    None => None,
                },
            ),
            MdTag::Item => TagView::Item,
            MdTag::List(start) => TagView::List(*start),
            MdTag::Link => TagView::Link,
            MdTag::BlockQuote => TagView::BlockQuote,
            MdTag::Paragraph => TagView::Paragraph,
            MdTag::Other => TagView::Other,
        }
    }
}

impl View for MdEvent {
    type V = EventView;

    open spec fn view(&self) -> EventView {
        match self {
            MdEvent::Start(t) => EventView::Start(t@),
            MdEvent::End(t) => EventView::End(*t),
            MdEvent::Text(s) => EventView::Text(s@),
            MdEvent::Code(s) => EventView::Code(s@),
            MdEvent::SoftBreak => EventView::SoftBreak,
            MdEvent::HardBreak => EventView::HardBreak,
            MdEvent::Rule => EventView::Rule,
            MdEvent::Other => EventView::Other,
        }
    }
}

impl DeepView for MdEvent {
    type V = EventView;

    open spec fn deep_view(&self) -> EventView {
        self@
    }
}

/// The events `pulldown_cmark::Parser::new` (default options) yields for
/// `source`, as far as rendering tells them apart.
pub uninterp spec fn markdown_events(source: Seq<char>) -> Seq<EventView>;

/// `pulldown_cmark::Event`.
#[verifier::external_type_specification]
#[verifier::external_body]
pub struct ExEvent<'a>(Event<'a>);

/// `pulldown_cmark::Tag`.
#[verifier::external_type_specification]
#[verifier::external_body]
pub struct ExTag<'a>(Tag<'a>);

/// `pulldown_cmark::TagEnd`.
#[verifier::external_type_specification]
#[verifier::external_body]
pub struct ExTagEnd(TagEnd);

/// Converts one `pulldown_cmark` opening tag.
#[verifier::external_body]
fn tag_of(tag: Tag) -> MdTag {
    match tag {
        Tag::Heading { level, .. } => MdTag::Heading(level as usize),
        Tag::Emphasis => MdTag::Emphasis,
        Tag::Strong => MdTag::Strong,
        Tag::Strikethrough => MdTag::Strikethrough,
        Tag::CodeBlock(CodeBlockKind::Fenced(info)) => MdTag::CodeBlock(Some(info.to_string())),
        Tag::CodeBlock(CodeBlockKind::Indented) => MdTag::CodeBlock(None),
        Tag::Item => MdTag::Item,
        Tag::List(start) => MdTag::List(start),
        Tag::Link { .. } => MdTag::Link,
        Tag::BlockQuote(_) => MdTag::BlockQuote,
        Tag::Paragraph => MdTag::Paragraph,
        _ => MdTag::Other,
    }
}

/// Converts one `pulldown_cmark` closing tag.
#[verifier::external_body]
fn tag_end_of(tag: TagEnd) -> MdTagEnd {
    match tag {
        TagEnd::Heading(_) => MdTagEnd::Heading,
        TagEnd::Emphasis => MdTagEnd::Emphasis,
        TagEnd::Strong => MdTagEnd::Strong,
        TagEnd::Strikethrough => MdTagEnd::Strikethrough,
        TagEnd::Link => MdTagEnd::Link,
        TagEnd::CodeBlock => MdTagEnd::CodeBlock,
        TagEnd::Item => MdTagEnd::Item,
        TagEnd::List(_) => MdTagEnd::List,
        TagEnd::Paragraph => MdTagEnd::Paragraph,
        TagEnd::BlockQuote(_) => MdTagEnd::BlockQuote,
        _ => MdTagEnd::Other,
    }
}

/// Converts one `pulldown_cmark` event.
#[verifier::external_body]
fn event_of(event: Event) -> MdEvent {
    match event {
        Event::Start(tag) => MdEvent::Start(tag_of(tag)),
        Event::End(tag) => MdEvent::End(tag_end_of(tag)),
        Event::Text(text) => MdEvent::Text(text.to_string()),
        Event::Code(text) => MdEvent::Code(text.to_string()),
        Event::SoftBreak => MdEvent::SoftBreak,
        Event::HardBreak => MdEvent::HardBreak,
        Event::Rule => MdEvent::Rule,
        _ => MdEvent::Other,
    }
}

/// Parses `source` with `pulldown_cmark::Parser::new` (default options) and
/// converts each event, one for one. The events are a function of `source`
/// alone; what they are is named, not stated.
#[verifier::external_body]
fn parse_events(source: &str) -> (r: Vec<MdEvent>)
    ensures
        r.deep_view() == markdown_events(source@),
{
    Parser::new(source).map(event_of).collect()
}

// ---------------------------------------------------------------------------
// The renderer as a state machine over events
// ---------------------------------------------------------------------------

/// Rendering state: finished lines, the spans of the line being built, the
/// stack of inline styles, whether inside a code block, and the stack of open
/// lists (with the next number of each ordered one).
pub struct RenderView {
    pub lines: Seq<LineView>,
    pub current: Seq<SpanView>,
    pub styles: Seq<Style>,
    pub in_code_block: bool,
    pub lists: Seq<Option<u64>>,
}

/// The state before the first event.
pub open spec fn initial_state() -> RenderView {
    RenderView {
        lines: Seq::empty(),
        current: Seq::empty(),
        styles: seq![plain()],
        in_code_block: false,
        lists: Seq::empty(),
    }
}

/// The style on top of the stack, or the plain style.
pub open spec fn top_style(styles: Seq<Style>) -> Style {
    if styles.len() > 0 {
        styles.last()
    } else {
        plain()
    }
}

/// A span of `content` in `style`.
pub open spec fn span(content: Seq<char>, style: Style) -> SpanView {
    SpanView { content, style }
}

/// A line built from `content` in line style `style`: one plain span per line
/// of `content` (`Line::styled`; with the plain style, `Line::raw`).
pub open spec fn styled_line(content: Seq<char>, style: Style) -> LineView {
    LineView { spans: lines(content).map_values(|l: Seq<char>| span(l, plain())), style }
}

/// The line being built ends: it joins the finished lines.
pub open spec fn flush(st: RenderView) -> RenderView {
    RenderView {
        lines: st.lines.push(LineView { spans: st.current, style: plain() }),
        current: Seq::empty(),
        ..st
    }
}

/// Ends the line being built unless it is empty.
pub open spec fn flush_nonempty(st: RenderView) -> RenderView {
    if st.current.len() > 0 {
        flush(st)
    } else {
        st
    }
}

/// Adds `s` to the line being built.
pub open spec fn add_span(st: RenderView, s: SpanView) -> RenderView {
    RenderView { current: st.current.push(s), ..st }
}

/// Pushes `s` on the style stack.
pub open spec fn push_style(st: RenderView, s: Style) -> RenderView {
    RenderView { styles: st.styles.push(s), ..st }
}

/// Pops the style stack (nothing happens when it is empty).
pub open spec fn pop_style(st: RenderView) -> RenderView {
    RenderView {
        styles: if st.styles.len() > 0 {
            st.styles.drop_last()
        } else {
            st.styles
        },
        ..st
    }
}

/// The heading marker shown for level `level`.
pub open spec fn heading_prefix(level: usize) -> Seq<char> {
    if level == 1 {
        "# "@
    } else if level == 2 {
        "## "@
    } else if level == 3 {
        "### "@
    } else {
        "#### "@
    }
}

/// Style of headings.
pub open spec fn heading_style() -> Style {
    Style { fg: Some(Color::Magenta), bold: true, ..plain() }
}

/// Style of code-fence and rule lines.
pub open spec fn fence_style() -> Style {
    Style { fg: Some(Color::DarkGray), ..plain() }
}

/// Style of code-block text.
pub open spec fn code_style() -> Style {
    Style { fg: Some(Color::Green), ..plain() }
}

/// Style of inline code.
pub open spec fn inline_code_style() -> Style {
    Style { fg: Some(Color::Green), bg: Some(Color::Black), ..plain() }
}

/// The text of the opening fence of a code block with info string `info`.
pub open spec fn fence_text(info: Option<Seq<char>>) -> Seq<char> {
    match info {
        Some(l) if l.len() > 0 => "```"@ + "["@ + l + "]"@,
        _ => "```"@,
    }
}

/// The marker of a list item: two spaces per level of nesting below the
/// outermost list, then the item's number and ". " in an ordered list, or
/// "- ".
pub open spec fn item_marker(lists: Seq<Option<u64>>) -> Seq<char> {
    let depth: nat = if lists.len() > 0 {
        (lists.len() - 1) as nat
    } else {
        0
    };
    let indent = repeat("  "@, depth);
    if lists.len() > 0 && lists.last() is Some {
        indent + decimal(lists.last()->0 as nat) + ". "@
    } else {
        indent + "- "@
    }
}

/// The list stack after an item is opened: an ordered list counts on (the
/// counter wraps at `u64::MAX`, beyond any start number CommonMark allows).
pub open spec fn count_item(lists: Seq<Option<u64>>) -> Seq<Option<u64>> {
    if lists.len() > 0 && lists.last() is Some {
        lists.drop_last().push(Some(((lists.last()->0 + 1) % 0x1_0000_0000_0000_0000) as u64))
    } else {
        lists
    }
}

/// The text of a horizontal rule.
pub open spec fn rule_text() -> Seq<char> {
    repeat("─"@, 40)
}

/// Adds the pieces of a code block's text: every piece after the first
/// starts a new line, and empty pieces add no span.
pub open spec fn add_code_pieces(st: RenderView, pieces: Seq<Seq<char>>, first: bool) -> RenderView
    decreases pieces.len(),
{
    if pieces.len() == 0 {
        st
    } else {
        let st1 = if first {
            st
        } else {
            flush(st)
        };
        let st2 = if pieces[0].len() > 0 {
            add_span(st1, span(pieces[0], code_style()))
        } else {
            st1
        };
        add_code_pieces(st2, pieces.drop_first(), false)
    }
}

/// The state after event `ev`.
pub open spec fn step(st: RenderView, ev: EventView) -> RenderView {
    match ev {
        EventView::Start(tag) => match tag {
            TagView::Heading(level) => add_span(
                push_style(flush_nonempty(st), heading_style()),
                span(heading_prefix(level), heading_style()),
            ),
            TagView::Emphasis => push_style(st, Style { italic: true, ..top_style(st.styles) }),
            TagView::Strong => push_style(st, Style { bold: true, ..top_style(st.styles) }),
            TagView::Strikethrough => push_style(
                st,
                Style { crossed_out: true, ..top_style(st.styles) },
            ),
            TagView::CodeBlock(info) => {
                let s = flush_nonempty(st);
                RenderView {
                    in_code_block: true,
                    lines: s.lines.push(styled_line(fence_text(info), fence_style())),
                    ..s
                }
            },
            TagView::Item => {
                let s = flush_nonempty(st);
                RenderView {
                    current: s.current.push(span(item_marker(s.lists), plain())),
                    lists: count_item(s.lists),
                    ..s
                }
            },
            TagView::List(start) => RenderView { lists: st.lists.push(start), ..st },
            TagView::Link => push_style(
                st,
                Style { fg: Some(Color::Blue), underlined: true, ..top_style(st.styles) },
            ),
            TagView::BlockQuote => add_span(flush_nonempty(st), span("> "@, fence_style())),
            TagView::Paragraph => st,
            TagView::Other => st,
        },
        EventView::End(tag) => match tag {
            MdTagEnd::Heading => pop_style(flush(st)),
            MdTagEnd::Emphasis => pop_style(st),
            MdTagEnd::Strong => pop_style(st),
            MdTagEnd::Strikethrough => pop_style(st),
            MdTagEnd::Link => pop_style(st),
            MdTagEnd::CodeBlock => RenderView {
                in_code_block: false,
                lines: st.lines.push(styled_line("```"@, fence_style())),
                ..st
            },
            MdTagEnd::Item => flush(st),
            MdTagEnd::List => RenderView {
                lists: if st.lists.len() > 0 {
                    st.lists.drop_last()
                } else {
                    st.lists
                },
                ..st
            },
            MdTagEnd::Paragraph => {
                let s = flush(st);
                RenderView { lines: s.lines.push(styled_line(Seq::empty(), plain())), ..s }
            },
            MdTagEnd::BlockQuote => {
                let s = flush(st);
                RenderView { lines: s.lines.push(styled_line(Seq::empty(), plain())), ..s }
            },
            MdTagEnd::Other => st,
        },
        EventView::Text(t) => if st.in_code_block {
            add_code_pieces(st, split_char(t, '\n'), true)
        } else {
            add_span(st, span(t, top_style(st.styles)))
        },
        EventView::Code(t) => add_span(st, span(t, inline_code_style())),
        EventView::SoftBreak => add_span(st, span(" "@, plain())),
        EventView::HardBreak => flush(st),
        EventView::Rule => {
            let s = flush_nonempty(st);
            RenderView { lines: s.lines.push(styled_line(rule_text(), fence_style())), ..s }
        },
        EventView::Other => st,
    }
}

/// The state after all of `events`, from `st`.
pub open spec fn run(st: RenderView, events: Seq<EventView>) -> RenderView
    decreases events.len(),
{
    if events.len() == 0 {
        st
    } else {
        step(run(st, events.drop_last()), events.last())
    }
}

/// `lines` without its trailing lines that have no spans.
pub open spec fn drop_empty_tail(lines: Seq<LineView>) -> Seq<LineView>
    decreases lines.len(),
{
    if lines.len() > 0 && lines.last().spans.len() == 0 {
        drop_empty_tail(lines.drop_last())
    } else {
        lines
    }
}

/// The rendered lines of a document with events `events`.
pub open spec fn rendered(events: Seq<EventView>) -> Seq<LineView> {
    drop_empty_tail(flush_nonempty(run(initial_state(), events)).lines)
}


// ---------------------------------------------------------------------------
// The executable renderer
// ---------------------------------------------------------------------------

struct Renderer {
    lines: Vec<StyledLine>,
    current: Vec<StyledSpan>,
    styles: Vec<Style>,
    in_code_block: bool,
    lists: Vec<Option<u64>>,
}

impl View for Renderer {
    type V = RenderView;

    closed spec fn view(&self) -> RenderView {
        RenderView {
            lines: self.lines.deep_view(),
            current: self.current.deep_view(),
            styles: self.styles@,
            in_code_block: self.in_code_block,
            lists: self.lists@,
        }
    }
}

/// A line built from `content` in line style `style` (`Line::styled`).
fn make_styled_line(content: &str, style: Style) -> (r: StyledLine)
    ensures
        r@ == styled_line(content@, style),
{
    let parts = lines_of(content);
    let mut spans: Vec<StyledSpan> = Vec::new();
    let mut i: usize = 0;
    while i < parts.len()
        invariant
            i <= parts.len(),
            spans.deep_view() == views(parts@).take(i as int).map_values(
                |l: Seq<char>| span(l, plain()),
            ),
        decreases parts.len() - i,
    {
        let ghost prev = spans.deep_view();
        spans.push(StyledSpan { content: parts[i].clone(), style: Style::new() });
        assert(spans.deep_view() =~= prev.push(span(parts@[i as int]@, plain())));
        assert(views(parts@).take(i + 1) =~= views(parts@).take(i as int).push(parts@[i as int]@));
        assert(views(parts@).take(i + 1).map_values(|l: Seq<char>| span(l, plain())) =~= views(
            parts@,
        ).take(i as int).map_values(|l: Seq<char>| span(l, plain())).push(
            span(parts@[i as int]@, plain()),
        ));
        i = i + 1;
    }
    assert(views(parts@).take(parts.len() as int) =~= views(parts@));
    StyledLine { spans, style }
}

fn heading_prefix_text(level: usize) -> (r: String)
    ensures
        r@ == heading_prefix(level),
{
    if level == 1 {
        owned("# ")
    } else if level == 2 {
        owned("## ")
    } else if level == 3 {
        owned("### ")
    } else {
        owned("#### ")
    }
}

fn fence_opening(info: &Option<String>) -> (r: String)
    ensures
        r@ == fence_text(
            match info {
                Some(s) => Some(s@),
                None => None,
            },
        ),
{
    let mut s = owned("```");
    match info {
        Some(l) => {
            if char_count(l.as_str()) > 0 {
                s.append("[");
                s.append(l.as_str());
                s.append("]");
            }
        },
        None => {},
    }
    s
}

impl Renderer {
    fn new() -> (r: Renderer)
        ensures
            r@ == initial_state(),
    {
        let mut styles: Vec<Style> = Vec::new();
        styles.push(Style::new());
        let r = Renderer {
            lines: Vec::new(),
            current: Vec::new(),
            styles,
            in_code_block: false,
            lists: Vec::new(),
        };
        assert(r@.lines =~= Seq::<LineView>::empty());
        assert(r@.current =~= Seq::<SpanView>::empty());
        assert(r@.styles =~= seq![plain()]);
        r
    }

    fn flush(&mut self)
        ensures
            final(self)@ == flush(old(self)@),
    {
        let mut spans: Vec<StyledSpan> = Vec::new();
        std::mem::swap(&mut spans, &mut self.current);
        let ghost prev = self.lines.deep_view();
        let line = StyledLine { spans, style: Style::new() };
        assert(line@ == (LineView { spans: old(self)@.current, style: plain() }));
        self.lines.push(line);
        assert(self.lines.deep_view() =~= prev.push(line@));
        assert(self.current.deep_view() =~= Seq::<SpanView>::empty());
    }

    fn flush_nonempty(&mut self)
        ensures
            final(self)@ == flush_nonempty(old(self)@),
    {
        if self.current.len() > 0 {
            self.flush();
        }
    }

    fn add_span(&mut self, content: String, style: Style)
        ensures
            final(self)@ == add_span(old(self)@, span(content@, style)),
    {
        let ghost prev = self.current.deep_view();
        self.current.push(StyledSpan { content, style });
        assert(self.current.deep_view() =~= prev.push(span(content@, style)));
    }

    fn add_line(&mut self, line: StyledLine)
        ensures
            final(self)@ == (RenderView { lines: old(self)@.lines.push(line@), ..old(self)@ }),
    {
        let ghost prev = self.lines.deep_view();
        let ghost lv = line@;
        self.lines.push(line);
        assert(self.lines.deep_view() =~= prev.push(lv));
    }

    fn top_style(&self) -> (r: Style)
        ensures
            r == top_style(self@.styles),
    {
        if self.styles.len() > 0 {
            self.styles[self.styles.len() - 1]
        } else {
            Style::new()
        }
    }

    fn push_style(&mut self, s: Style)
        ensures
            final(self)@ == push_style(old(self)@, s),
    {
        self.styles.push(s);
    }

    fn pop_style(&mut self)
        ensures
            final(self)@ == pop_style(old(self)@),
    {
        let _ = self.styles.pop();
    }

    fn add_code_text(&mut self, text: &str)
        ensures
            final(self)@ == add_code_pieces(old(self)@, split_char(text@, '\n'), true),
    {
        let pieces = split(text, '\n');
        let ghost all = views(pieces@);
        let ghost target = add_code_pieces(self@, all, true);
        let mut i: usize = 0;
        assert(all.skip(0) =~= all);
        while i < pieces.len()
            invariant
                all == views(pieces@),
                i <= pieces.len(),
                add_code_pieces(self@, all.skip(i as int), i == 0) == target,
            decreases pieces.len() - i,
        {
            let ghost rest = all.skip(i as int);
            assert(rest[0] == pieces@[i as int]@);
            assert(rest.drop_first() =~= all.skip(i + 1));
            if i > 0 {
                self.flush();
            }
            if char_count(pieces[i].as_str()) > 0 {
                self.add_span(pieces[i].clone(), Style::new().fg(Color::Green));
            }
            i = i + 1;
        }
    }

    fn start_item(&mut self)
        ensures
            final(self)@ == step(old(self)@, EventView::Start(TagView::Item)),
    {
        self.flush_nonempty();
        let ghost mid = self@;
        let n = self.lists.len();
        let depth = if n > 0 {
            n - 1
        } else {
            0
        };
        let mut marker = repeated("  ", depth);
        let numbered = if n > 0 {
            match self.lists[n - 1] {
                Some(k) => {
                    push_decimal(&mut marker, k);
                    marker.append(". ");
                    let next: u64 = if k == u64::MAX {
                        0
                    } else {
                        k + 1
                    };
                    assert(next == ((k + 1) % 0x1_0000_0000_0000_0000) as u64);
                    self.lists.set(n - 1, Some(next));
                    assert(self.lists@ =~= count_item(mid.lists));
                    true
                },
                None => false,
            }
        } else {
            false
        };
        if !numbered {
            marker.append("- ");
        }
        assert(marker@ =~= item_marker(mid.lists));
        self.add_span(marker, Style::new());
    }

    fn step(&mut self, ev: &MdEvent)
        ensures
            final(self)@ == step(old(self)@, ev@),
    {
        match ev {
            MdEvent::Start(tag) => match tag {
                MdTag::Heading(level) => {
                    self.flush_nonempty();
                    let s = Style::new().fg(Color::Magenta).bold();
                    self.push_style(s);
                    self.add_span(heading_prefix_text(*level), s);
                },
                MdTag::Emphasis => {
                    let s = self.top_style().italic();
                    self.push_style(s);
                },
                MdTag::Strong => {
                    let s = self.top_style().bold();
                    self.push_style(s);
                },
                MdTag::Strikethrough => {
                    let s = self.top_style().crossed_out();
                    self.push_style(s);
                },
                MdTag::CodeBlock(info) => {
                    self.flush_nonempty();
                    self.in_code_block = true;
                    let text = fence_opening(info);
                    let line = make_styled_line(text.as_str(), Style::new().fg(Color::DarkGray));
                    self.add_line(line);
                },
                MdTag::Item => {
                    self.start_item();
                },
                MdTag::List(start) => {
                    self.lists.push(*start);
                },
                MdTag::Link => {
                    let s = self.top_style().fg(Color::Blue).underlined();
                    self.push_style(s);
                },
                MdTag::BlockQuote => {
                    self.flush_nonempty();
                    self.add_span(owned("> "), Style::new().fg(Color::DarkGray));
                },
                MdTag::Paragraph => {},
                MdTag::Other => {},
            },
            MdEvent::End(tag) => match tag {
                MdTagEnd::Heading => {
                    self.flush();
                    self.pop_style();
                },
                MdTagEnd::Emphasis | MdTagEnd::Strong | MdTagEnd::Strikethrough
                | MdTagEnd::Link => {
                    self.pop_style();
                },
                MdTagEnd::CodeBlock => {
                    self.in_code_block = false;
                    let line = make_styled_line("```", Style::new().fg(Color::DarkGray));
                    self.add_line(line);
                },
                MdTagEnd::Item => {
                    self.flush();
                },
                MdTagEnd::List => {
                    let _ = self.lists.pop();
                },
                MdTagEnd::Paragraph | MdTagEnd::BlockQuote => {
                    self.flush();
                    let line = make_styled_line("", Style::new());
                    proof {
                        reveal_strlit("");
                        assert(""@ =~= Seq::<char>::empty());
                    }
                    self.add_line(line);
                },
                MdTagEnd::Other => {},
            },
            MdEvent::Text(t) => {
                if self.in_code_block {
                    self.add_code_text(t.as_str());
                } else {
                    let s = self.top_style();
                    self.add_span(t.clone(), s);
                }
            },
            MdEvent::Code(t) => {
                self.add_span(t.clone(), Style::new().fg(Color::Green).bg(Color::Black));
            },
            MdEvent::SoftBreak => {
                self.add_span(owned(" "), Style::new());
            },
            MdEvent::HardBreak => {
                self.flush();
            },
            MdEvent::Rule => {
                self.flush_nonempty();
                let text = repeated("─", 40);
                let line = make_styled_line(text.as_str(), Style::new().fg(Color::DarkGray));
                self.add_line(line);
            },
            MdEvent::Other => {},
        }
    }
}

/// The styled lines for a document with events `events`.
pub fn render_events(events: &Vec<MdEvent>) -> (r: Vec<StyledLine>)
    ensures
        r.deep_view() == rendered(events.deep_view()),
{
    let ghost evs = events.deep_view();
    let mut st = Renderer::new();
    let mut i: usize = 0;
    while i < events.len()
        invariant
            evs == events.deep_view(),
            i <= events.len(),
            st@ == run(initial_state(), evs.take(i as int)),
        decreases events.len() - i,
    {
        assert(evs.take(i + 1).drop_last() =~= evs.take(i as int));
        assert(evs.take(i + 1).last() == events@[i as int]@);
        st.step(&events[i]);
        i = i + 1;
    }
    assert(evs.take(events.len() as int) =~= evs);
    st.flush_nonempty();
    let mut lines = st.lines;
    while lines.len() > 0 && lines[lines.len() - 1].spans.len() == 0
        invariant
            drop_empty_tail(lines.deep_view()) == rendered(evs),
        decreases lines.len(),
    {
        let ghost prev = lines.deep_view();
        let _ = lines.pop();
        assert(lines.deep_view() =~= prev.drop_last());
    }
    lines
}

/// Renders Markdown `source` into styled lines: headings, emphasis, code,
/// lists, links, quotes and rules, with trailing blank lines dropped.
pub fn render(source: &str) -> (r: Vec<StyledLine>)
    ensures
        r.deep_view() == rendered(markdown_events(source@)),
{
    let events = parse_events(source);
    render_events(&events)
}


proof fn lemma_drop_empty_tail(lines: Seq<LineView>)
    ensures
        drop_empty_tail(lines).len() > 0 ==> drop_empty_tail(lines).last().spans.len() > 0,
        drop_empty_tail(lines).len() <= lines.len(),
        drop_empty_tail(lines) == lines.take(drop_empty_tail(lines).len() as int),
    decreases lines.len(),
{
    if lines.len() > 0 && lines.last().spans.len() == 0 {
        lemma_drop_empty_tail(lines.drop_last());
        let d = drop_empty_tail(lines.drop_last());
        assert(lines.drop_last().take(d.len() as int) =~= lines.take(d.len() as int));
    } else {
        assert(lines.take(lines.len() as int) =~= lines);
    }
}

/// Rendered text never ends in a blank line, and its lines are those the
/// renderer produced, in order, with only trailing blank lines removed.
pub proof fn lemma_rendered_ends_nonblank(events: Seq<EventView>)
    ensures
        rendered(events).len() > 0 ==> rendered(events).last().spans.len() > 0,
        rendered(events) == flush_nonempty(run(initial_state(), events)).lines.take(
            rendered(events).len() as int,
        ),
{
    lemma_drop_empty_tail(flush_nonempty(run(initial_state(), events)).lines);
}

/// The heading marker shows the heading's level: as many `'#'` as the
/// level (at most four), then a space.
pub proof fn lemma_heading_prefix_counts_level(level: usize)
    requires
        1 <= level,
    ensures
        heading_prefix(level) == Seq::new(
            if level < 4 {
                level as nat
            } else {
                4nat
            },
            |i: int| '#',
        ).push(' '),
{
    reveal_strlit("# ");
    reveal_strlit("## ");
    reveal_strlit("### ");
    reveal_strlit("#### ");
    let n: nat = if level < 4 {
        level as nat
    } else {
        4nat
    };
    assert(heading_prefix(level) =~= Seq::new(n, |i: int| '#').push(' '));
}

} // verus!
