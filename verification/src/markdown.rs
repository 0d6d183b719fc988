//! Rendering of an article's Markdown body, with its code blocks highlighted
//! as Rust.
//!
//! The parser's events are sorted into what the logic reads (the start and the
//! end of a code block, text) and the rest, which is carried through by its
//! position in the event stream: the writer takes it from the parse of the
//! same body.
//! The text inside a code block is gathered and handed to the highlighter as
//! one piece; the highlighted HTML takes the place of the whole block.

use vstd::prelude::*;
use pulldown_cmark::{CowStr, Event, Options, Parser, Tag};
use syntect::highlighting::ThemeSet;
use syntect::parsing::SyntaxSet;
use crate::codec::html_escaped;

verus! {

/// What the logic sees of one parser event: a code block opens, a code block
/// closes, some text, or another event (by its position in the event stream).
pub enum Outline {
    CodeBlockStart,
    CodeBlockEnd,
    Text(Seq<char>),
    Other(nat),
}

/// One parser event, sorted.
pub enum MarkdownEvent {
    CodeBlockStart,
    CodeBlockEnd,
    Text(String),
    /// Any other event, with its position in the event stream.
    Other(usize),
}

impl MarkdownEvent {
    pub open spec fn outline(self) -> Outline {
        match self {
            MarkdownEvent::CodeBlockStart => Outline::CodeBlockStart,
            MarkdownEvent::CodeBlockEnd => Outline::CodeBlockEnd,
            MarkdownEvent::Text(t) => Outline::Text(t@),
            MarkdownEvent::Other(i) => Outline::Other(i as nat),
        }
    }
}

/// What the parser gives for a Markdown text (with no extensions enabled),
/// seen through `Outline`.
pub uninterp spec fn markdown_outline(body: Seq<char>) -> Seq<Outline>;

/// A piece of the body after code blocks are gathered: text outside code
/// blocks, the whole text of one code block, or another event.
pub enum Segment {
    Text(Seq<char>),
    Code(Seq<char>),
    Other(nat),
}

pub enum Piece {
    Text(String),
    Code(String),
    Other(usize),
}

impl Piece {
    pub open spec fn segment(self) -> Segment {
        match self {
            Piece::Text(t) => Segment::Text(t@),
            Piece::Code(c) => Segment::Code(c@),
            Piece::Other(i) => Segment::Other(i as nat),
        }
    }
}

/// The state of the walk over the events: the pieces so far, whether a code
/// block is open, and the code gathered in it.
pub struct Scan {
    pub segments: Seq<Segment>,
    pub in_code: bool,
    pub code: Seq<char>,
}

/// One step of the walk.
pub open spec fn scan_step(s: Scan, e: Outline) -> Scan {
    match e {
        Outline::CodeBlockStart => Scan { in_code: true, ..s },
        Outline::CodeBlockEnd => if s.in_code {
            Scan { segments: s.segments.push(Segment::Code(s.code)), in_code: false, code: Seq::empty() }
        } else {
            s
        },
        Outline::Text(t) => if s.in_code {
            Scan { code: s.code + t, ..s }
        } else {
            Scan { segments: s.segments.push(Segment::Text(t)), ..s }
        },
        Outline::Other(i) => Scan { segments: s.segments.push(Segment::Other(i)), ..s },
    }
}

/// The walk over a whole event stream, from an empty state.
pub open spec fn scan(events: Seq<Outline>) -> Scan
    decreases events.len(),
{
    if events.len() == 0 {
        Scan { segments: Seq::empty(), in_code: false, code: Seq::empty() }
    } else {
        scan_step(scan(events.drop_last()), events.last())
    }
}

/// The pieces that a stream of events turns into.
pub open spec fn code_block_plan(events: Seq<Outline>) -> Seq<Segment> {
    scan(events).segments
}

/// How many code blocks a list of pieces holds.
pub open spec fn code_count(segments: Seq<Segment>) -> nat
    decreases segments.len(),
{
    if segments.len() == 0 {
        0
    } else {
        code_count(segments.drop_last()) + if segments.last() is Code { 1nat } else { 0nat }
    }
}

/// An event handed to the HTML writer: text (escaped on output), ready HTML,
/// or another event of the parser (by its position).
pub enum Fragment {
    Text(Seq<char>),
    Html(Seq<char>),
    Other(nat),
}

pub enum HtmlEvent {
    Text(String),
    Html(String),
    Other(usize),
}

impl HtmlEvent {
    pub open spec fn fragment(self) -> Fragment {
        match self {
            HtmlEvent::Text(t) => Fragment::Text(t@),
            HtmlEvent::Html(h) => Fragment::Html(h@),
            HtmlEvent::Other(i) => Fragment::Other(i as nat),
        }
    }
}

/// The events for the HTML writer: each code block replaced, in order, by the
/// highlighted HTML given for it.
pub open spec fn assembled(segments: Seq<Segment>, highlighted: Seq<Seq<char>>) -> Seq<Fragment>
    decreases segments.len(),
{
    if segments.len() == 0 {
        Seq::empty()
    } else {
        match segments.last() {
            Segment::Code(_) => assembled(segments.drop_last(), highlighted.drop_last()).push(
                Fragment::Html(highlighted.last()),
            ),
            Segment::Text(t) => assembled(segments.drop_last(), highlighted).push(Fragment::Text(t)),
            Segment::Other(i) => assembled(segments.drop_last(), highlighted).push(
                Fragment::Other(i),
            ),
        }
    }
}

/// Whether a list of fragments holds no event other than text and HTML.
pub open spec fn text_and_html_only(fragments: Seq<Fragment>) -> bool {
    forall|i: int| 0 <= i < fragments.len() ==> !(#[trigger] fragments[i] is Other)
}

/// The HTML of text and HTML fragments: text escaped, HTML as it is.
pub open spec fn plain_html(fragments: Seq<Fragment>) -> Seq<char>
    decreases fragments.len(),
{
    if fragments.len() == 0 {
        Seq::empty()
    } else {
        plain_html(fragments.drop_last()) + match fragments.last() {
            Fragment::Text(t) => html_escaped(t),
            Fragment::Html(h) => h,
            Fragment::Other(_) => Seq::empty(),
        }
    }
}

/// All the text of a stream of events, in order.
pub open spec fn outline_text(events: Seq<Outline>) -> Seq<char>
    decreases events.len(),
{
    if events.len() == 0 {
        Seq::empty()
    } else {
        outline_text(events.drop_last()) + match events.last() {
            Outline::Text(t) => t,
            _ => Seq::empty(),
        }
    }
}

/// The positions of the other events of a stream, in order.
pub open spec fn outline_others(events: Seq<Outline>) -> Seq<nat>
    decreases events.len(),
{
    if events.len() == 0 {
        Seq::empty()
    } else {
        outline_others(events.drop_last()) + match events.last() {
            Outline::Other(i) => seq![i],
            _ => Seq::empty(),
        }
    }
}

/// All the text of a list of pieces, in order, code included.
pub open spec fn segments_text(segments: Seq<Segment>) -> Seq<char>
    decreases segments.len(),
{
    if segments.len() == 0 {
        Seq::empty()
    } else {
        segments_text(segments.drop_last()) + match segments.last() {
            Segment::Text(t) => t,
            Segment::Code(c) => c,
            Segment::Other(_) => Seq::empty(),
        }
    }
}

/// The positions of the other events among a list of pieces, in order.
pub open spec fn segments_others(segments: Seq<Segment>) -> Seq<nat>
    decreases segments.len(),
{
    if segments.len() == 0 {
        Seq::empty()
    } else {
        segments_others(segments.drop_last()) + match segments.last() {
            Segment::Other(i) => seq![i],
            _ => Seq::empty(),
        }
    }
}

/// Gathering code blocks loses no text and no event: the text of the pieces,
/// followed by the code of a block still open at the end, is the text of the
/// events; the other events come through in order; and outside a code block
/// no code is pending.
pub proof fn law_plan_keeps_text_and_events(events: Seq<Outline>)
    ensures
        segments_text(scan(events).segments) + scan(events).code == outline_text(events),
        segments_others(scan(events).segments) == outline_others(events),
        !scan(events).in_code ==> scan(events).code.len() == 0,
    decreases events.len(),
{
    if events.len() > 0 {
        let prefix = events.drop_last();
        law_plan_keeps_text_and_events(prefix);
        let before = scan(prefix);
        let after = scan(events);
        assert(after == scan_step(before, events.last()));
        match events.last() {
            Outline::CodeBlockStart => {
                assert(outline_text(events) =~= outline_text(prefix));
                assert(outline_others(events) =~= outline_others(prefix));
            },
            Outline::CodeBlockEnd => {
                assert(outline_text(events) =~= outline_text(prefix));
                assert(outline_others(events) =~= outline_others(prefix));
                if before.in_code {
                    assert(after.segments.drop_last() =~= before.segments);
                    assert(segments_text(after.segments) =~= segments_text(before.segments)
                        + before.code);
                    assert(segments_others(after.segments) =~= segments_others(before.segments));
                    assert(segments_text(after.segments) + after.code =~= segments_text(
                        after.segments,
                    ));
                }
            },
            Outline::Text(t) => {
                assert(outline_text(events) =~= outline_text(prefix) + t);
                assert(outline_others(events) =~= outline_others(prefix));
                if before.in_code {
                    assert(segments_text(after.segments) + after.code =~= segments_text(
                        before.segments,
                    ) + before.code + t);
                } else {
                    assert(after.segments.drop_last() =~= before.segments);
                    assert(segments_text(after.segments) =~= segments_text(before.segments) + t);
                    assert(segments_others(after.segments) =~= segments_others(before.segments));
                    assert(segments_text(after.segments) + after.code =~= segments_text(
                        before.segments,
                    ) + before.code + t);
                }
            },
            Outline::Other(i) => {
                assert(outline_text(events) =~= outline_text(prefix));
                assert(outline_others(events) =~= outline_others(prefix).push(i));
                assert(after.segments.drop_last() =~= before.segments);
                assert(segments_text(after.segments) =~= segments_text(before.segments));
                assert(segments_others(after.segments) =~= segments_others(before.segments).push(
                    i,
                ));
            },
        }
    }
}

/// Text events, one per text.
pub open spec fn text_events(texts: Seq<Seq<char>>) -> Seq<Outline> {
    Seq::new(texts.len(), |i: int| Outline::Text(texts[i]))
}

/// Texts one after the other.
pub open spec fn joined(texts: Seq<Seq<char>>) -> Seq<char>
    decreases texts.len(),
{
    if texts.len() == 0 {
        Seq::empty()
    } else {
        joined(texts.drop_last()) + texts.last()
    }
}

/// Inside an open code block, texts only add to the code and make no piece.
proof fn lemma_texts_inside_block(prefix: Seq<Outline>, texts: Seq<Seq<char>>)
    requires
        !scan(prefix).in_code,
    ensures
        scan(prefix.push(Outline::CodeBlockStart) + text_events(texts)) == (Scan {
            segments: scan(prefix).segments,
            in_code: true,
            code: joined(texts),
        }),
    decreases texts.len(),
{
    law_plan_keeps_text_and_events(prefix);
    let opened = prefix.push(Outline::CodeBlockStart);
    assert(opened.drop_last() =~= prefix);
    if texts.len() == 0 {
        assert(opened + text_events(texts) =~= opened);
        assert(scan(prefix).code =~= Seq::<char>::empty());
    } else {
        lemma_texts_inside_block(prefix, texts.drop_last());
        let events = opened + text_events(texts);
        assert(events.drop_last() =~= opened + text_events(texts.drop_last()));
        assert(events.last() == Outline::Text(texts.last()));
    }
}

/// A closed code block becomes one code piece holding all its text, whatever
/// its length: after any events that leave no block open, the events of a code
/// block (its start, its texts, its end) add exactly one piece, the code of all
/// its texts one after the other, and leave no block open.
pub proof fn law_closed_block_is_one_code_piece(prefix: Seq<Outline>, texts: Seq<Seq<char>>)
    requires
        !scan(prefix).in_code,
    ensures
        code_block_plan(prefix.push(Outline::CodeBlockStart) + text_events(texts).push(
            Outline::CodeBlockEnd,
        )) == code_block_plan(prefix).push(Segment::Code(joined(texts))),
        !scan(prefix.push(Outline::CodeBlockStart) + text_events(texts).push(Outline::CodeBlockEnd)).in_code,
{
    lemma_texts_inside_block(prefix, texts);
    let events = prefix.push(Outline::CodeBlockStart) + text_events(texts).push(Outline::CodeBlockEnd);
    assert(events.drop_last() =~= prefix.push(Outline::CodeBlockStart) + text_events(texts));
    assert(events.last() == Outline::CodeBlockEnd);
}

/// Outside a code block, a text is its own piece, and another event passes
/// through as it is.
pub proof fn law_outside_block_passes(prefix: Seq<Outline>, text: Seq<char>, i: nat)
    requires
        !scan(prefix).in_code,
    ensures
        code_block_plan(prefix.push(Outline::Text(text))) == code_block_plan(prefix).push(
            Segment::Text(text),
        ),
        code_block_plan(prefix.push(Outline::Other(i))) == code_block_plan(prefix).push(
            Segment::Other(i),
        ),
{
    assert(prefix.push(Outline::Text(text)).drop_last() =~= prefix);
    assert(prefix.push(Outline::Other(i)).drop_last() =~= prefix);
}

/// Every code block is highlighted as a whole: a code piece added at the end
/// adds the highlighting of its whole text, and the rendering fails where that
/// highlighting does.
pub proof fn law_code_piece_highlighted_whole(segments: Seq<Segment>, code: Seq<char>)
    ensures
        highlights(segments.push(Segment::Code(code))) == (match highlights(segments) {
            Some(hs) => match rust_highlighted(code) {
                Some(h) => Some(hs.push(h)),
                None => None,
            },
            None => None,
        }),
{
    assert(segments.push(Segment::Code(code)).drop_last() =~= segments);
}

/// Gathers the text of each code block into one piece. Text outside code
/// blocks and every other event pass through in order; the events that open
/// and close a code block are dropped.
pub fn plan_code_blocks(events: Vec<MarkdownEvent>) -> (pieces: Vec<Piece>)
    ensures
        pieces@.map_values(|p: Piece| p.segment()) == code_block_plan(
            events@.map_values(|e: MarkdownEvent| e.outline()),
        ),
{
    let ghost ev = events@;
    let ghost outline = ev.map_values(|e: MarkdownEvent| e.outline());
    let mut pieces: Vec<Piece> = Vec::new();
    let mut in_code_block = false;
    let mut to_highlight = String::new();
    let n = events.len();
    let mut k: usize = 0;
    for event in it: events
        invariant
            n == outline.len(),
            outline == ev.map_values(|e: MarkdownEvent| e.outline()),
            it.seq() == ev,
            k == it.index(),
            ({
                let st = scan(outline.take(k as int));
                &&& pieces@.map_values(|p: Piece| p.segment()) == st.segments
                &&& in_code_block == st.in_code
                &&& to_highlight@ == st.code
            }),
    {
        proof {
            assert(outline[k as int] == event.outline());
            assert(outline.take(k + 1).drop_last() =~= outline.take(k as int));
            assert(outline.take(k + 1).last() == event.outline());
        }
        match event {
            MarkdownEvent::CodeBlockStart => {
                in_code_block = true;
            },
            MarkdownEvent::CodeBlockEnd => {
                if in_code_block {
                    let mut code = String::new();
                    std::mem::swap(&mut code, &mut to_highlight);
                    pieces.push(Piece::Code(code));
                    in_code_block = false;
                }
            },
            MarkdownEvent::Text(t) => {
                if in_code_block {
                    to_highlight.append(t.as_str());
                } else {
                    pieces.push(Piece::Text(t));
                }
            },
            MarkdownEvent::Other(i) => {
                pieces.push(Piece::Other(i));
            },
        }
        proof {
            assert(pieces@.map_values(|p: Piece| p.segment()) =~= scan(
                outline.take(k + 1),
            ).segments);
        }
        k = k + 1;
    }
    proof {
        assert(outline.take(n as int) =~= outline);
    }
    pieces
}

/// Puts the highlighted HTML of each code block, in order, in place of the
/// block; text and the other events pass through.
pub fn assemble(pieces: Vec<Piece>, highlighted: &Vec<String>) -> (events: Vec<HtmlEvent>)
    requires
        highlighted.len() == code_count(pieces@.map_values(|p: Piece| p.segment())),
    ensures
        events@.map_values(|e: HtmlEvent| e.fragment()) == assembled(
            pieces@.map_values(|p: Piece| p.segment()),
            highlighted@.map_values(|h: String| h@),
        ),
{
    let ghost ps = pieces@;
    let ghost segs = ps.map_values(|p: Piece| p.segment());
    let ghost hs = highlighted@.map_values(|h: String| h@);
    let mut events: Vec<HtmlEvent> = Vec::new();
    let mut j: usize = 0;
    let mut k: usize = 0;
    let n = pieces.len();
    for piece in it: pieces
        invariant
            n == ps.len(),
            it.seq() == ps,
            k == it.index(),
            segs == ps.map_values(|p: Piece| p.segment()),
            hs == highlighted@.map_values(|h: String| h@),
            highlighted.len() == code_count(segs),
            j == code_count(segs.take(k as int)),
            j <= highlighted.len(),
            events@.map_values(|e: HtmlEvent| e.fragment()) == assembled(
                segs.take(k as int),
                hs.take(j as int),
            ),
    {
        proof {
            assert(k < segs.len());
            assert(segs[k as int] == piece.segment());
            assert(segs.take(k + 1).drop_last() =~= segs.take(k as int));
            lemma_code_count_prefix(segs, k as int);
        }
        match piece {
            Piece::Code(_) => {
                proof {
                    assert(hs.len() == highlighted.len());
                    assert(hs.take(j + 1).drop_last() =~= hs.take(j as int));
                }
                events.push(HtmlEvent::Html(highlighted[j].clone()));
                j = j + 1;
            },
            Piece::Text(t) => {
                events.push(HtmlEvent::Text(t));
            },
            Piece::Other(i) => {
                events.push(HtmlEvent::Other(i));
            },
        }
        proof {
            assert(events@.map_values(|e: HtmlEvent| e.fragment()) =~= assembled(
                segs.take(k + 1),
                hs.take(j as int),
            ));
        }
        k = k + 1;
    }
    proof {
        assert(segs.take(k as int) =~= segs);
        assert(hs.take(j as int) =~= hs);
    }
    events
}

/// Counting code blocks over a prefix that grows by one piece.
proof fn lemma_code_count_prefix(segs: Seq<Segment>, k: int)
    requires
        0 <= k < segs.len(),
    ensures
        code_count(segs.take(k + 1)) == code_count(segs.take(k)) + if segs[k] is Code {
            1nat
        } else {
            0nat
        },
        code_count(segs.take(k)) <= code_count(segs),
        code_count(segs.take(k + 1)) <= code_count(segs),
    decreases segs.len() - k,
{
    assert(segs.take(k + 1).drop_last() =~= segs.take(k));
    if k + 1 < segs.len() {
        lemma_code_count_prefix(segs, k + 1);
    } else {
        assert(segs.take(k + 1) =~= segs);
    }
}

/// What syntect makes of a piece of Rust code: the HTML that
/// `highlighted_html_for_string` gives with the default syntaxes (newline
/// mode), the syntax found for the extension `rs` and the default theme
/// `InspiredGitHub`; `None` where one of those is missing or syntect fails.
pub uninterp spec fn rust_highlighted(code: Seq<char>) -> Option<Seq<char>>;

/// What the HTML writer (`pulldown_cmark::html::push_html`) gives for a list
/// of fragments of a body: text as a text event, HTML as an HTML event, and
/// `Other(i)` as the `i`-th event of the parse of the body.
pub uninterp spec fn markdown_html(body: Seq<char>, fragments: Seq<Fragment>) -> Seq<char>;

/// The highlighted HTML of each code block of a list of pieces, in order;
/// `None` where the highlighting of one of them fails.
pub open spec fn highlights(segments: Seq<Segment>) -> Option<Seq<Seq<char>>>
    decreases segments.len(),
{
    if segments.len() == 0 {
        Some(Seq::empty())
    } else {
        match highlights(segments.drop_last()) {
            None => None,
            Some(hs) => match segments.last() {
                Segment::Code(c) => match rust_highlighted(c) {
                    Some(h) => Some(hs.push(h)),
                    None => None,
                },
                _ => Some(hs),
            },
        }
    }
}

/// What the HTML writer gives for fragments of a body: where they are text
/// and HTML only, the text escaped and the HTML as it is; otherwise
/// `markdown_html`.
pub open spec fn written_html(body: Seq<char>, fragments: Seq<Fragment>) -> Seq<char> {
    if text_and_html_only(fragments) {
        plain_html(fragments)
    } else {
        markdown_html(body, fragments)
    }
}

/// The HTML of a Markdown body: its events written out, each code block
/// replaced by the highlighting of its whole text; `None` where the
/// highlighting of a block fails.
pub open spec fn rendered_markdown(body: Seq<char>) -> Option<Seq<char>> {
    let plan = code_block_plan(markdown_outline(body));
    match highlights(plan) {
        Some(hs) => Some(written_html(body, assembled(plan, hs))),
        None => None,
    }
}

/// Whether every other event among some events is named by a position below
/// `n`.
pub open spec fn others_below(events: Seq<Outline>, n: nat) -> bool {
    forall|k: int| 0 <= k < events.len() ==> (#[trigger] events[k] matches Outline::Other(i) ==> i < n)
}

/// The same for pieces.
pub open spec fn segment_others_below(segments: Seq<Segment>, n: nat) -> bool {
    forall|k: int| 0 <= k < segments.len() ==> (#[trigger] segments[k] matches Segment::Other(i) ==> i < n)
}

/// The same for fragments.
pub open spec fn fragment_others_below(fragments: Seq<Fragment>, n: nat) -> bool {
    forall|k: int| 0 <= k < fragments.len() ==> (#[trigger] fragments[k] matches Fragment::Other(i) ==> i < n)
}

/// Gathering code blocks names no other event that was not among the events.
proof fn lemma_plan_others_below(events: Seq<Outline>, n: nat)
    requires
        others_below(events, n),
    ensures
        segment_others_below(scan(events).segments, n),
    decreases events.len(),
{
    if events.len() > 0 {
        let prefix = events.drop_last();
        assert forall|k: int| 0 <= k < prefix.len() implies (#[trigger] prefix[k] matches Outline::Other(i) ==> i < n) by {
            assert(prefix[k] == events[k]);
        }
        lemma_plan_others_below(prefix, n);
        let before = scan(prefix);
        let after = scan(events);
        assert(events[events.len() - 1] == events.last());
        assert forall|k: int| 0 <= k < after.segments.len() implies (#[trigger] after.segments[k] matches Segment::Other(i) ==> i < n) by {
            if k < before.segments.len() {
                assert(after.segments[k] == before.segments[k]);
            }
        }
    }
}

/// Putting the highlighted HTML in place names no other event that was not
/// among the pieces.
proof fn lemma_assembled_others_below(segments: Seq<Segment>, highlighted: Seq<Seq<char>>, n: nat)
    requires
        segment_others_below(segments, n),
    ensures
        fragment_others_below(assembled(segments, highlighted), n),
    decreases segments.len(),
{
    if segments.len() > 0 {
        let prefix = segments.drop_last();
        assert forall|k: int| 0 <= k < prefix.len() implies (#[trigger] prefix[k] matches Segment::Other(i) ==> i < n) by {
            assert(prefix[k] == segments[k]);
        }
        assert(segments[segments.len() - 1] == segments.last());
        let hs = if segments.last() is Code { highlighted.drop_last() } else { highlighted };
        lemma_assembled_others_below(prefix, hs, n);
        let before = assembled(prefix, hs);
        let after = assembled(segments, highlighted);
        assert forall|k: int| 0 <= k < after.len() implies (#[trigger] after[k] matches Fragment::Other(i) ==> i < n) by {
            if k < before.len() {
                assert(after[k] == before[k]);
            }
        }
    }
}

/// There is one highlighting for each code block.
proof fn lemma_highlights_count(segments: Seq<Segment>)
    ensures
        highlights(segments) matches Some(hs) ==> hs.len() == code_count(segments),
    decreases segments.len(),
{
    if segments.len() > 0 {
        lemma_highlights_count(segments.drop_last());
    }
}

/// Once the highlighting of a block fails, the whole fails.
proof fn lemma_highlights_fail(segments: Seq<Segment>, k: int)
    requires
        0 <= k <= segments.len(),
        highlights(segments.take(k)) is None,
    ensures
        highlights(segments) is None,
    decreases segments.len() - k,
{
    if k < segments.len() {
        assert(segments.take(k + 1).drop_last() =~= segments.take(k));
        lemma_highlights_fail(segments, k + 1);
    } else {
        assert(segments.take(k) =~= segments);
    }
}

/// Renders a Markdown body as HTML, each code block highlighted as Rust with
/// syntect's default syntaxes and its `InspiredGitHub` theme, whatever the
/// block's language tag; `None` where syntect fails on a block.
pub fn code_blocks(article_body: &str) -> (html: Option<String>)
    ensures
        (match html {
            Some(h) => rendered_markdown(article_body@) == Some(h@),
            None => rendered_markdown(article_body@) is None,
        }),
{
    let events = parse_markdown(article_body);
    let ghost outline = markdown_outline(article_body@);
    let pieces = plan_code_blocks(events);
    let ghost segs = pieces@.map_values(|p: Piece| p.segment());
    assert(segs == code_block_plan(outline));
    let mut highlighted: Vec<String> = Vec::new();
    let mut k: usize = 0;
    while k < pieces.len()
        invariant
            k <= pieces.len(),
            segs == pieces@.map_values(|p: Piece| p.segment()),
            segs == code_block_plan(outline),
            outline == markdown_outline(article_body@),
            highlights(segs.take(k as int)) == Some(highlighted@.map_values(|h: String| h@)),
        decreases pieces.len() - k,
    {
        proof {
            assert(segs.take(k + 1).drop_last() =~= segs.take(k as int));
            assert(segs.take(k + 1).last() == segs[k as int]);
        }
        match &pieces[k] {
            Piece::Code(code) => {
                match highlight_rust(code.as_str()) {
                    Some(h) => {
                        highlighted.push(h);
                        proof {
                            assert(highlighted@.map_values(|h: String| h@) =~= highlights(
                                segs.take(k + 1),
                            )->0);
                        }
                    },
                    None => {
                        proof {
                            lemma_highlights_fail(segs, k + 1);
                        }
                        return None;
                    },
                }
            },
            _ => {},
        }
        k = k + 1;
    }
    proof {
        assert(segs.take(k as int) =~= segs);
        lemma_highlights_count(segs);
        lemma_plan_others_below(outline, outline.len());
        lemma_assembled_others_below(segs, highlighted@.map_values(|h: String| h@), outline.len());
    }
    let out = assemble(pieces, &highlighted);
    Some(render_html(article_body, out))
}

/// Two bodies that the parser sees alike, up to the language tags of their
/// code blocks (which `Outline` leaves out), and that hold nothing but text
/// and code blocks, are rendered alike: the language tag of a block does not
/// matter.
pub proof fn law_fence_tag_ignored(a: Seq<char>, b: Seq<char>)
    requires
        markdown_outline(a) == markdown_outline(b),
        forall|k: int|
            0 <= k < markdown_outline(a).len() ==> !(#[trigger] markdown_outline(a)[k] is Other),
    ensures
        rendered_markdown(a) == rendered_markdown(b),
{
    let plan = code_block_plan(markdown_outline(a));
    if let Some(hs) = highlights(plan) {
        let frags = assembled(plan, hs);
        lemma_plan_others_below(markdown_outline(a), 0);
        lemma_assembled_others_below(plan, hs, 0);
        assert(text_and_html_only(frags));
    }
}

/// Parses Markdown with `pulldown_cmark::Parser::new_ext` (no extensions) and
/// sorts its events; another event is given by its position in the stream.
/// Claimed: the outline of the result is `markdown_outline` of the body (the
/// parser is a function of its input).
#[verifier::external_body]
pub(crate) fn parse_markdown(body: &str) -> (events: Vec<MarkdownEvent>)
    ensures
        events@.map_values(|e: MarkdownEvent| e.outline()) == markdown_outline(body@),
        forall|k: int| 0 <= k < events@.len() ==> (#[trigger] events@[k] matches MarkdownEvent::Other(i) ==> i == k),
{
    Parser::new_ext(body, Options::empty()).enumerate().map(|(i, e)| match e {
        Event::Start(Tag::CodeBlock(_)) => MarkdownEvent::CodeBlockStart,
        Event::End(Tag::CodeBlock(_)) => MarkdownEvent::CodeBlockEnd,
        Event::Text(t) => MarkdownEvent::Text(t.into_string()),
        _ => MarkdownEvent::Other(i),
    }).collect()
}

/// Writes fragments of a body as HTML with `pulldown_cmark::html::push_html`:
/// text as a text event, HTML as an HTML event, and `Other(i)` as the `i`-th
/// event of `Parser::new_ext` on the body (no extensions), which the
/// `requires` keeps within the stream.
/// Claimed: the result is `markdown_html` of the body and fragments; where the
/// fragments are text and HTML only, it is the text escaped (the writer
/// escapes `&`, `<`, `>`, `"`) and the HTML as it is, in order.
#[verifier::external_body]
pub(crate) fn render_html(body: &str, events: Vec<HtmlEvent>) -> (html: String)
    requires
        fragment_others_below(events@.map_values(|e: HtmlEvent| e.fragment()), markdown_outline(body@).len()),
    ensures
        html@ == markdown_html(body@, events@.map_values(|e: HtmlEvent| e.fragment())),
        text_and_html_only(events@.map_values(|e: HtmlEvent| e.fragment())) ==> html@
            == plain_html(events@.map_values(|e: HtmlEvent| e.fragment())),
{
    let parsed: Vec<Event> = Parser::new_ext(body, Options::empty()).collect();
    let mut out = String::new();
    pulldown_cmark::html::push_html(&mut out, events.into_iter().map(|e| match e {
        HtmlEvent::Text(t) => Event::Text(CowStr::from(t)),
        HtmlEvent::Html(h) => Event::Html(CowStr::from(h)),
        HtmlEvent::Other(i) => parsed[i].clone(),
    }));
    out
}

/// Highlights Rust code as HTML with `syntect::html::highlighted_html_for_string`,
/// using the default syntaxes (`SyntaxSet::load_defaults_newlines`), the
/// syntax found for `rs` and the default theme `InspiredGitHub`
/// (`ThemeSet::load_defaults`); `None` where that syntax or theme is missing
/// or syntect fails.
/// Claimed: the result is `rust_highlighted` of the code.
#[verifier::external_body]
fn highlight_rust(code: &str) -> (html: Option<String>)
    ensures
        (match html {
            Some(h) => rust_highlighted(code@) == Some(h@),
            None => rust_highlighted(code@) is None,
        }),
{
    let syntaxes = SyntaxSet::load_defaults_newlines();
    let themes = ThemeSet::load_defaults();
    let syntax = syntaxes.find_syntax_by_extension("rs")?;
    let theme = themes.themes.get("InspiredGitHub")?;
    syntect::html::highlighted_html_for_string(code, &syntaxes, syntax, theme).ok()
}

} // verus!
