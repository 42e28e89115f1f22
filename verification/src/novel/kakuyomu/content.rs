//! Chapter-body extraction for the kakuyomu source: every paragraph under
//! the episode body becomes one content line — a dedicated blank-line
//! paragraph becomes a blank line, and so does a paragraph whose walk
//! yields no spans at all: a structurally blank paragraph is kept as a
//! paragraph break, never dropped. The two hooks are disjoint (the line
//! hook's anti-selector excludes the dedicated blank rows), so each blank
//! is counted exactly once.

use vstd::prelude::*;

use crate::dom;
use crate::novel::novel_utils;
use crate::novel::novel_utils::{spans_run, LineEvent};
use crate::novel::{ContentLine, ContentLineV};
use crate::traverser::TreeTraverser;
use crate::{NovelComponent, NovelError, NovelResult};

verus! {

/// The view of a run of content lines.
pub open spec fn lines_view(lines: Seq<ContentLine>) -> Seq<ContentLineV> {
    lines.map_values(|l: ContentLine| l@)
}

/// The lines a run of paragraph events folds into: a blank event is a
/// blank line; a paragraph event keeps its spans as one line, and a
/// paragraph whose walk yields no spans is structurally blank and becomes
/// a blank line; a malformed annotation aborts the whole chapter.
pub open spec fn content_run(events: Seq<LineEvent>) -> Result<Seq<ContentLineV>, NovelError>
    decreases events.len(),
{
    if events.len() == 0 {
        Ok(Seq::empty())
    } else {
        match content_run(events.drop_last()) {
            Err(e) => Err(e),
            Ok(lines) => match events.last() {
                LineEvent::Blank => Ok(lines.push(ContentLineV::Blank)),
                LineEvent::Para(children) => match spans_run(children@) {
                    Ok(spans) => if spans.len() == 0 {
                        Ok(lines.push(ContentLineV::Blank))
                    } else {
                        Ok(lines.push(ContentLineV::Line(spans)))
                    },
                    Err(e) => Err(e),
                },
            },
        }
    }
}

/// The accumulator a chapter-body scan fills.
pub struct ContentData {
    pub lines: Vec<ContentLine>,
}

impl ContentData {
    /// One paragraph of content: its spans become one line; a paragraph
    /// whose walk yields no spans is structurally blank and becomes a
    /// blank line; a malformed annotation aborts and leaves the lines
    /// unchanged.
    pub fn get_content_line(&mut self, children: &Vec<novel_utils::ParaChild>) -> (r: Result<
        (),
        NovelError,
    >)
        ensures
            spans_run(children@) matches Ok(s) ==> r is Ok && lines_view(final(self).lines@)
                == lines_view(old(self).lines@).push(
                if s.len() == 0 {
                    ContentLineV::Blank
                } else {
                    ContentLineV::Line(s)
                },
            ),
            spans_run(children@) matches Err(e) ==> r == Err::<(), NovelError>(e) && *final(self)
                == *old(self),
    {
        match novel_utils::line_spans(children) {
            Ok(spans) => {
                if spans.len() == 0 {
                    self.lines.push(ContentLine::Blank);
                } else {
                    self.lines.push(ContentLine::Line(spans));
                }
                proof {
                    assert(lines_view(final(self).lines@) =~= lines_view(old(self).lines@).push(
                        final(self).lines@.last()@,
                    ));
                }
                Ok(())
            },
            Err(e) => Err(e),
        }
    }

    /// One blank paragraph: a structurally meaningful paragraph break.
    pub fn get_blank_line(&mut self)
        ensures
            lines_view(final(self).lines@) == lines_view(old(self).lines@).push(
                ContentLineV::Blank,
            ),
    {
        self.lines.push(ContentLine::Blank);
        proof {
            assert(lines_view(final(self).lines@) =~= lines_view(old(self).lines@).push(
                ContentLineV::Blank,
            ));
        }
    }
}

/// Folds a chapter-body scan's events into content lines, in page order.
pub fn content_lines_of(events: &Vec<LineEvent>) -> (r: Result<Vec<ContentLine>, NovelError>)
    ensures
        content_run(events@) matches Ok(s) ==> (r matches Ok(lines) && lines_view(lines@) == s),
        content_run(events@) matches Err(e) ==> r == Err::<Vec<ContentLine>, NovelError>(e),
{
    let mut data = ContentData { lines: Vec::new() };
    let mut i: usize = 0;
    proof {
        assert(events@.subrange(0, 0) =~= Seq::<LineEvent>::empty());
        assert(lines_view(data.lines@) =~= Seq::<ContentLineV>::empty());
    }
    while i < events.len()
        invariant
            i <= events@.len(),
            content_run(events@.subrange(0, i as int)) == Ok::<Seq<ContentLineV>, NovelError>(
                lines_view(data.lines@),
            ),
        decreases events@.len() - i,
    {
        proof {
            assert(events@.subrange(0, i as int + 1).drop_last() =~= events@.subrange(0, i as int));
            assert(events@.subrange(0, i as int + 1).last() == events@[i as int]);
        }
        match &events[i] {
            LineEvent::Para(children) => {
                match data.get_content_line(children) {
                    Ok(()) => {},
                    Err(e) => {
                        proof {
                            lemma_content_run_err_persists(events@, i as int + 1);
                        }
                        return Err(e);
                    },
                }
            },
            LineEvent::Blank => {
                data.get_blank_line();
            },
        }
        i += 1;
    }
    proof {
        assert(events@.subrange(0, events@.len() as int) =~= events@);
    }
    Ok(data.lines)
}

/// The only way the fold fails is a malformed annotation.
pub proof fn lemma_content_run_err_is_malformed(events: Seq<LineEvent>)
    ensures
        content_run(events) is Err ==> content_run(events) == Err::<Seq<ContentLineV>, NovelError>(
            NovelError::MalformedAnnotation,
        ),
    decreases events.len(),
{
    if events.len() > 0 {
        lemma_content_run_err_is_malformed(events.drop_last());
        if content_run(events.drop_last()) is Ok {
            match events.last() {
                LineEvent::Para(children) => {
                    novel_utils::lemma_spans_run_err_is_malformed(children@);
                },
                LineEvent::Blank => {},
            }
        }
    }
}

/// Once a prefix of the fold has failed, the whole fold fails the same way.
proof fn lemma_content_run_err_persists(events: Seq<LineEvent>, i: int)
    requires
        0 <= i <= events.len(),
        content_run(events.subrange(0, i)) is Err,
    ensures
        content_run(events) == content_run(events.subrange(0, i)),
    decreases events.len() - i,
{
    if i == events.len() {
        assert(events.subrange(0, i) =~= events);
    } else {
        assert(events.subrange(0, i + 1).drop_last() =~= events.subrange(0, i));
        lemma_content_run_err_persists(events, i + 1);
    }
}

/// Whether a scan event stands for a structurally blank paragraph: the
/// dedicated blank-line marker, or a paragraph whose walk yields no spans.
pub open spec fn event_is_blank(e: LineEvent) -> bool {
    match e {
        LineEvent::Blank => true,
        LineEvent::Para(children) => spans_run(children@) matches Ok(s) && s.len() == 0,
    }
}

/// LAW: blank paragraphs round-trip: when extraction succeeds there is one
/// line per paragraph event, and line `i` is blank exactly where event `i`
/// was structurally blank — blank lines are never merged into their
/// neighbours and never dropped.
pub proof fn lemma_blank_lines_round_trip(events: Seq<LineEvent>)
    requires
        content_run(events) is Ok,
    ensures
        content_run(events)->Ok_0.len() == events.len(),
        forall|i: int|
            0 <= i < events.len() ==> ((#[trigger] content_run(events)->Ok_0[i]) is Blank
                <==> event_is_blank(events[i])),
    decreases events.len(),
{
    if events.len() > 0 {
        lemma_blank_lines_round_trip(events.drop_last());
    }
}

/// The selector texts a chapter-body scan registers, the line hook's
/// anti-selector included.
pub open spec fn body_selector(s: Seq<char>) -> bool {
    ||| s == ".widget-episodeBody > p"@
    ||| s == ".widget-episodeBody > p.blank"@
    ||| s == ".widget-episodeBody > p.blank > br"@
}

/// Whether every selector of a chapter-body scan compiles.
pub open spec fn body_selectors_compile() -> bool {
    &&& dom::selector_compiles(".widget-episodeBody > p"@)
    &&& dom::selector_compiles(".widget-episodeBody > p.blank"@)
    &&& dom::selector_compiles(".widget-episodeBody > p.blank > br"@)
}

/// What a failed chapter-body extraction can report: one of the scan's own
/// selector texts that does not compile, a malformed annotation, or a page
/// without content.
pub open spec fn body_error_ok(e: NovelError) -> bool {
    ||| ({
        &&& e matches NovelError::TraverseError(te)
        &&& te matches crate::traverser::TraverseError::CssSelectorCompilation(sel)
        &&& !dom::selector_compiles(sel@)
        &&& body_selector(sel@)
    })
    ||| e == NovelError::MalformedAnnotation
    ||| e == NovelError::ComponentMissing(NovelComponent::ChapterContent)
}

/// Extracts a chapter's content lines from its page. A page yielding no
/// lines at all is a missing-content error; a malformed annotation or a
/// selector defect is reported as itself.
pub fn fetch_novel_content(html: &str) -> (r: NovelResult<Vec<ContentLine>>)
    ensures
        r matches Ok(lines) ==> lines@.len() >= 1,
        r matches Err(e) ==> body_error_ok(e),
        !body_selectors_compile() ==> r is Err,
{
    let node = dom::parse_html(html);
    let traverser: TreeTraverser<ContentHook> = TreeTraverser::new(node);
    let traverser = match traverser.add_hook(
        ".widget-episodeBody > p",
        Some(".widget-episodeBody > p.blank"),
        ContentHook::Line,
    ) {
        Ok(t) => t,
        Err(e) => return Err(NovelError::TraverseError(e)),
    };
    let traverser = match traverser.add_hook(
        ".widget-episodeBody > p.blank > br",
        None,
        ContentHook::Blank,
    ) {
        Ok(t) => t,
        Err(e) => return Err(NovelError::TraverseError(e)),
    };
    let firings = traverser.traverse();
    let mut events: Vec<LineEvent> = Vec::new();
    let mut i: usize = 0;
    while i < firings.len()
        decreases firings@.len() - i,
    {
        let (tag, element) = &firings[i];
        match tag {
            ContentHook::Line => {
                events.push(LineEvent::Para(novel_utils::para_children(element)));
            },
            ContentHook::Blank => {
                events.push(LineEvent::Blank);
            },
        }
        i += 1;
    }
    let lines = match content_lines_of(&events) {
        Ok(lines) => lines,
        Err(e) => {
            proof {
                lemma_content_run_err_is_malformed(events@);
            }
            return Err(e);
        },
    };
    if lines.len() == 0 {
        return Err(NovelError::ComponentMissing(NovelComponent::ChapterContent));
    }
    Ok(lines)
}

/// The two hooks of a chapter-body scan.
#[derive(Clone, Copy)]
enum ContentHook {
    Line,
    Blank,
}

} // verus!
