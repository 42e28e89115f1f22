//! Chapter-body extraction for the syosetu source: every paragraph under
//! the body element becomes one content line; the dedicated line-break
//! marker becomes a blank line, and so does a paragraph whose walk yields
//! no spans at all: a structurally blank paragraph is kept as a paragraph
//! break, never dropped. A paragraph that itself carries a line break is
//! the marker's own shape and reports nothing, so that each blank is
//! counted exactly once.

use vstd::prelude::*;

use crate::dom;
use crate::novel::novel_utils;
use crate::novel::novel_utils::{has_break_child, spans_run, LineEvent};
use crate::novel::{ContentLine, ContentLineV};
use crate::traverser::TreeTraverser;
use crate::{NovelComponent, NovelError, NovelResult};

verus! {

/// The view of a run of content lines.
pub open spec fn lines_view(lines: Seq<ContentLine>) -> Seq<ContentLineV> {
    lines.map_values(|l: ContentLine| l@)
}

/// The lines a run of paragraph events folds into: a blank event is a
/// blank line; a paragraph event keeps its spans as one line; a paragraph
/// whose walk yields no spans is structurally blank and becomes a blank
/// line, unless it carries the line-break marker itself, whose blank the
/// marker event already reports; a malformed annotation aborts the whole
/// chapter.
pub open spec fn page_run(events: Seq<LineEvent>) -> Result<Seq<ContentLineV>, NovelError>
    decreases events.len(),
{
    if events.len() == 0 {
        Ok(Seq::empty())
    } else {
        match page_run(events.drop_last()) {
            Err(e) => Err(e),
            Ok(lines) => match events.last() {
                LineEvent::Blank => Ok(lines.push(ContentLineV::Blank)),
                LineEvent::Para(children) => match spans_run(children@) {
                    Ok(spans) => if spans.len() > 0 {
                        Ok(lines.push(ContentLineV::Line(spans)))
                    } else if has_break_child(children@) {
                        Ok(lines)
                    } else {
                        Ok(lines.push(ContentLineV::Blank))
                    },
                    Err(e) => Err(e),
                },
            },
        }
    }
}

/// The accumulator a chapter-body scan fills.
pub struct ContentData {
    pub lines: Vec<ContentLine>,
}

impl ContentData {
    /// One paragraph of content: its spans become one line; a paragraph
    /// whose walk yields no spans is structurally blank and becomes a
    /// blank line, unless it carries the line-break marker itself; a
    /// malformed annotation aborts and leaves the lines unchanged.
    pub fn get_line(&mut self, children: &Vec<novel_utils::ParaChild>) -> (r: Result<
        (),
        NovelError,
    >)
        ensures
            spans_run(children@) matches Ok(s) ==> r is Ok && lines_view(final(self).lines@) == (
            if s.len() > 0 {
                lines_view(old(self).lines@).push(ContentLineV::Line(s))
            } else if has_break_child(children@) {
                lines_view(old(self).lines@)
            } else {
                lines_view(old(self).lines@).push(ContentLineV::Blank)
            }),
            spans_run(children@) matches Err(e) ==> r == Err::<(), NovelError>(e) && *final(self)
                == *old(self),
    {
        match novel_utils::line_spans(children) {
            Ok(spans) => {
                if spans.len() > 0 {
                    self.lines.push(ContentLine::Line(spans));
                    proof {
                        assert(lines_view(final(self).lines@) =~= lines_view(
                            old(self).lines@,
                        ).push(final(self).lines@.last()@));
                    }
                } else if !novel_utils::has_break(children) {
                    self.lines.push(ContentLine::Blank);
                    proof {
                        assert(lines_view(final(self).lines@) =~= lines_view(
                            old(self).lines@,
                        ).push(ContentLineV::Blank));
                    }
                }
                Ok(())
            },
            Err(e) => Err(e),
        }
    }

    /// One line-break marker: a structurally meaningful paragraph break.
    pub fn get_blank(&mut self)
        ensures
            lines_view(final(self).lines@) == lines_view(old(self).lines@).push(
                ContentLineV::Blank,
            ),
    {
        self.lines.push(ContentLine::Blank);
        proof {
            assert(lines_view(final(self).lines@) =~= lines_view(old(self).lines@).push(
                ContentLineV::Blank,
            ));
        }
    }
}

/// Folds a chapter-body scan's events into content lines, in page order.
pub fn page_lines_of(events: &Vec<LineEvent>) -> (r: Result<Vec<ContentLine>, NovelError>)
    ensures
        page_run(events@) matches Ok(s) ==> (r matches Ok(lines) && lines_view(lines@) == s),
        page_run(events@) matches Err(e) ==> r == Err::<Vec<ContentLine>, NovelError>(e),
{
    let mut data = ContentData { lines: Vec::new() };
    let mut i: usize = 0;
    proof {
        assert(events@.subrange(0, 0) =~= Seq::<LineEvent>::empty());
        assert(lines_view(data.lines@) =~= Seq::<ContentLineV>::empty());
    }
    while i < events.len()
        invariant
            i <= events@.len(),
            page_run(events@.subrange(0, i as int)) == Ok::<Seq<ContentLineV>, NovelError>(
                lines_view(data.lines@),
            ),
        decreases events@.len() - i,
    {
        proof {
            assert(events@.subrange(0, i as int + 1).drop_last() =~= events@.subrange(0, i as int));
            assert(events@.subrange(0, i as int + 1).last() == events@[i as int]);
        }
        match &events[i] {
            LineEvent::Para(children) => {
                match data.get_line(children) {
                    Ok(()) => {},
                    Err(e) => {
                        proof {
                            lemma_page_run_err_persists(events@, i as int + 1);
                        }
                        return Err(e);
                    },
                }
            },
            LineEvent::Blank => {
                data.get_blank();
            },
        }
        i += 1;
    }
    proof {
        assert(events@.subrange(0, events@.len() as int) =~= events@);
    }
    Ok(data.lines)
}

/// The only way the fold fails is a malformed annotation.
pub proof fn lemma_page_run_err_is_malformed(events: Seq<LineEvent>)
    ensures
        page_run(events) is Err ==> page_run(events) == Err::<Seq<ContentLineV>, NovelError>(
            NovelError::MalformedAnnotation,
        ),
    decreases events.len(),
{
    if events.len() > 0 {
        lemma_page_run_err_is_malformed(events.drop_last());
        if page_run(events.drop_last()) is Ok {
            match events.last() {
                LineEvent::Para(children) => {
                    novel_utils::lemma_spans_run_err_is_malformed(children@);
                },
                LineEvent::Blank => {},
            }
        }
    }
}

/// Once a prefix of the fold has failed, the whole fold fails the same way.
proof fn lemma_page_run_err_persists(events: Seq<LineEvent>, i: int)
    requires
        0 <= i <= events.len(),
        page_run(events.subrange(0, i)) is Err,
    ensures
        page_run(events) == page_run(events.subrange(0, i)),
    decreases events.len() - i,
{
    if i == events.len() {
        assert(events.subrange(0, i) =~= events);
    } else {
        assert(events.subrange(0, i + 1).drop_last() =~= events.subrange(0, i));
        lemma_page_run_err_persists(events, i + 1);
    }
}

/// Whether a scan event owes the output one blank line: the dedicated
/// marker, or a paragraph with no spans that does not itself carry the
/// marker's line break.
pub open spec fn event_owes_blank(e: LineEvent) -> bool {
    match e {
        LineEvent::Blank => true,
        LineEvent::Para(children) => {
            &&& spans_run(children@) matches Ok(s)
            &&& s.len() == 0
            &&& !has_break_child(children@)
        },
    }
}

/// The number of blank lines a run of scan events owes the output.
pub open spec fn owed_blanks(events: Seq<LineEvent>) -> int
    decreases events.len(),
{
    if events.len() == 0 {
        0
    } else {
        owed_blanks(events.drop_last()) + if event_owes_blank(events.last()) {
            1int
        } else {
            0int
        }
    }
}

/// The number of blank lines in extracted content.
pub open spec fn blank_lines(lines: Seq<ContentLineV>) -> int
    decreases lines.len(),
{
    if lines.len() == 0 {
        0
    } else {
        blank_lines(lines.drop_last()) + if lines.last() is Blank {
            1int
        } else {
            0int
        }
    }
}

/// LAW: blank paragraphs round-trip here too: every blank marker and every
/// structurally blank paragraph yields exactly one blank line — none is
/// merged into a neighbour, none is dropped, and none is counted twice
/// even though the marker's own paragraph fires the line hook as well.
pub proof fn lemma_blanks_preserved(events: Seq<LineEvent>)
    requires
        page_run(events) is Ok,
    ensures
        blank_lines(page_run(events)->Ok_0) == owed_blanks(events),
    decreases events.len(),
{
    if events.len() > 0 {
        lemma_blanks_preserved(events.drop_last());
        let prev = page_run(events.drop_last())->Ok_0;
        let cur = page_run(events)->Ok_0;
        if cur.len() > prev.len() {
            assert(cur.drop_last() =~= prev);
        }
    }
}

/// The selector texts a chapter-body scan registers.
pub open spec fn body_selector(s: Seq<char>) -> bool {
    ||| s == "#novel_honbun > p"@
    ||| s == "#novel_honbun > p > br"@
}

/// Whether every selector of a chapter-body scan compiles.
pub open spec fn body_selectors_compile() -> bool {
    &&& dom::selector_compiles("#novel_honbun > p"@)
    &&& dom::selector_compiles("#novel_honbun > p > br"@)
}

/// What a failed chapter-body extraction can report: one of the scan's own
/// selector texts that does not compile, a malformed annotation, or a page
/// without content.
pub open spec fn body_error_ok(e: NovelError) -> bool {
    ||| ({
        &&& e matches NovelError::TraverseError(te)
        &&& te matches crate::traverser::TraverseError::CssSelectorCompilation(sel)
        &&& !dom::selector_compiles(sel@)
        &&& body_selector(sel@)
    })
    ||| e == NovelError::MalformedAnnotation
    ||| e == NovelError::ComponentMissing(NovelComponent::ChapterContent)
}

/// Extracts a chapter's content lines from its page. A page yielding no
/// lines at all is a missing-content error; a malformed annotation or a
/// selector defect is reported as itself.
pub fn fetch_page_content(html: &str) -> (r: NovelResult<Vec<ContentLine>>)
    ensures
        r matches Ok(lines) ==> lines@.len() >= 1,
        r matches Err(e) ==> body_error_ok(e),
        !body_selectors_compile() ==> r is Err,
{
    let node = dom::parse_html(html);
    let traverser: TreeTraverser<PageHook> = TreeTraverser::new(node);
    let traverser = match traverser.add_hook("#novel_honbun > p", None, PageHook::Line) {
        Ok(t) => t,
        Err(e) => return Err(NovelError::TraverseError(e)),
    };
    let traverser = match traverser.add_hook("#novel_honbun > p > br", None, PageHook::Blank) {
        Ok(t) => t,
        Err(e) => return Err(NovelError::TraverseError(e)),
    };
    let firings = traverser.traverse();
    let mut events: Vec<LineEvent> = Vec::new();
    let mut i: usize = 0;
    while i < firings.len()
        decreases firings@.len() - i,
    {
        let (tag, element) = &firings[i];
        match tag {
            PageHook::Line => {
                events.push(LineEvent::Para(novel_utils::para_children(element)));
            },
            PageHook::Blank => {
                events.push(LineEvent::Blank);
            },
        }
        i += 1;
    }
    let lines = match page_lines_of(&events) {
        Ok(lines) => lines,
        Err(e) => {
            proof {
                lemma_page_run_err_is_malformed(events@);
            }
            return Err(e);
        },
    };
    if lines.len() == 0 {
        return Err(NovelError::ComponentMissing(NovelComponent::ChapterContent));
    }
    Ok(lines)
}

/// The two hooks of a chapter-body scan.
#[derive(Clone, Copy)]
enum PageHook {
    Line,
    Blank,
}

} // verus!
