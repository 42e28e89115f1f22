//! Table-of-contents scanning: the events a traversal of a work's main
//! page produces, the accumulator they fold into, and the canonical
//! section/chapter association rule.
//!
//! The rule is "owns until the next boundary": chapters encountered between
//! two section headings belong to the heading that precedes them; chapters
//! encountered before any heading are carried forward and end up in the
//! first section; chapters after the last heading are flushed into it when
//! the scan ends; with no headings at all the chapters stand on their own.
//! Order numbers are assigned in page order, starting at 1, with no gaps.

use vstd::prelude::*;

use crate::novel::NovelStatus;

verus! {

/// One chapter row of a table of contents, before an order number is
/// assigned: display name, raw date text, and the path of the chapter's
/// own page.
#[derive(Debug, Clone, PartialEq)]
pub struct ChapterEntry {
    pub name: String,
    pub date: String,
    pub path: String,
}

/// A chapter fetch descriptor: a table-of-contents row with its assigned
/// order number. It exists only until the chapter's page is fetched.
#[derive(Debug, Clone, PartialEq)]
pub struct ChapterInfo {
    pub name: String,
    pub date: String,
    pub order_num: usize,
    pub path: String,
}

/// A section in progress: a heading's name and the chapter descriptors it
/// owns so far.
#[derive(Debug, Clone, PartialEq)]
pub struct SectionInfo {
    pub name: String,
    pub chapters: Vec<ChapterInfo>,
}

/// The abstract value of a `SectionInfo`.
#[verifier::ext_equal]
pub ghost struct SectionInfoV {
    pub name: String,
    pub chapters: Seq<ChapterInfo>,
}

impl View for SectionInfo {
    type V = SectionInfoV;

    open spec fn view(&self) -> SectionInfoV {
        SectionInfoV { name: self.name, chapters: self.chapters@ }
    }
}

/// Everything a scan of a work's main page can report, in page order.
#[derive(Debug, Clone, PartialEq)]
pub enum TocEvent {
    /// The work's title text.
    Title(String),
    /// The work's author text.
    Author(String),
    /// A recognized status marker.
    Status(NovelStatus),
    /// The path of the work's separate information page.
    InfoLink(String),
    /// A section heading with its display name.
    Section(String),
    /// One chapter row.
    Chapter(ChapterEntry),
}

/// The accumulator a main-page scan fills: the last seen title, author,
/// status and info-page link, the sections so far, the chapters not yet
/// owned by a section, and the running chapter counter.
#[derive(Debug, Clone, PartialEq)]
pub struct MainPageData {
    pub title: Option<String>,
    pub author: Option<String>,
    pub status: Option<NovelStatus>,
    pub info_path: Option<String>,
    pub sections: Vec<SectionInfo>,
    pub chapters: Vec<ChapterInfo>,
    pub chapter_count: usize,
}

/// The abstract value of a `MainPageData`.
#[verifier::ext_equal]
pub ghost struct MainPageDataV {
    pub title: Option<String>,
    pub author: Option<String>,
    pub status: Option<NovelStatus>,
    pub info_path: Option<String>,
    pub sections: Seq<SectionInfoV>,
    pub chapters: Seq<ChapterInfo>,
    pub chapter_count: int,
}

impl View for MainPageData {
    type V = MainPageDataV;

    open spec fn view(&self) -> MainPageDataV {
        MainPageDataV {
            title: self.title,
            author: self.author,
            status: self.status,
            info_path: self.info_path,
            sections: self.sections@.map_values(|s: SectionInfo| s@),
            chapters: self.chapters@,
            chapter_count: self.chapter_count as int,
        }
    }
}

/// The descriptor a table-of-contents row becomes when it is assigned an
/// order number.
pub open spec fn info_of(e: ChapterEntry, order: int) -> ChapterInfo {
    ChapterInfo { name: e.name, date: e.date, order_num: order as usize, path: e.path }
}

/// The accumulator before any event.
pub open spec fn empty_data() -> MainPageDataV {
    MainPageDataV {
        title: None,
        author: None,
        status: None,
        info_path: None,
        sections: Seq::empty(),
        chapters: Seq::empty(),
        chapter_count: 0,
    }
}

/// Moving the not-yet-owned chapters into the last section, if one exists.
pub open spec fn flush_step(d: MainPageDataV) -> MainPageDataV {
    if d.sections.len() > 0 {
        let last = d.sections.last();
        MainPageDataV {
            sections: d.sections.update(
                d.sections.len() - 1,
                SectionInfoV { name: last.name, chapters: last.chapters + d.chapters },
            ),
            chapters: Seq::empty(),
            ..d
        }
    } else {
        d
    }
}

/// How one event changes the accumulator. A later title, author, status or
/// info link overwrites an earlier one; a section heading first flushes the
/// pending chapters into the previous section; a chapter row takes the next
/// order number.
pub open spec fn toc_step(d: MainPageDataV, e: TocEvent) -> MainPageDataV {
    match e {
        TocEvent::Title(t) => MainPageDataV { title: Some(t), ..d },
        TocEvent::Author(a) => MainPageDataV { author: Some(a), ..d },
        TocEvent::Status(s) => MainPageDataV { status: Some(s), ..d },
        TocEvent::InfoLink(p) => MainPageDataV { info_path: Some(p), ..d },
        TocEvent::Section(name) => {
            let f = flush_step(d);
            MainPageDataV {
                sections: f.sections.push(SectionInfoV { name, chapters: Seq::empty() }),
                ..f
            }
        },
        TocEvent::Chapter(entry) => MainPageDataV {
            chapters: d.chapters.push(info_of(entry, d.chapter_count + 1)),
            chapter_count: d.chapter_count + 1,
            ..d
        },
    }
}

/// The accumulator after a whole event sequence, before the final flush.
pub open spec fn toc_run(events: Seq<TocEvent>) -> MainPageDataV
    decreases events.len(),
{
    if events.len() == 0 {
        empty_data()
    } else {
        toc_step(toc_run(events.drop_last()), events.last())
    }
}

/// The accumulator after the whole scan, final flush included.
pub open spec fn toc_final(events: Seq<TocEvent>) -> MainPageDataV {
    flush_step(toc_run(events))
}

/// The chapter rows of an event sequence, in order.
pub open spec fn entries_of(events: Seq<TocEvent>) -> Seq<ChapterEntry>
    decreases events.len(),
{
    if events.len() == 0 {
        Seq::empty()
    } else {
        let rest = entries_of(events.drop_last());
        match events.last() {
            TocEvent::Chapter(e) => rest.push(e),
            _ => rest,
        }
    }
}

/// The section heading names of an event sequence, in order.
pub open spec fn headings_of(events: Seq<TocEvent>) -> Seq<String>
    decreases events.len(),
{
    if events.len() == 0 {
        Seq::empty()
    } else {
        let rest = headings_of(events.drop_last());
        match events.last() {
            TocEvent::Section(name) => rest.push(name),
            _ => rest,
        }
    }
}

/// The chapter rows with their page-order numbers: row `i` gets `i + 1`.
pub open spec fn numbered_entries(events: Seq<TocEvent>) -> Seq<ChapterInfo> {
    Seq::new(entries_of(events).len(), |i: int| info_of(entries_of(events)[i], i + 1))
}

/// The section a chapter row appended after `prefix` belongs to, as an
/// index: the nearest preceding heading, except that rows seen before any
/// heading fall to the first section.
pub open spec fn sec_index_at(prefix: Seq<TocEvent>) -> int {
    let h = headings_of(prefix).len();
    if h == 0 {
        0
    } else {
        h - 1
    }
}

/// How many chapter rows of `events` belong to a section with index
/// below `j`.
pub open spec fn entries_below(events: Seq<TocEvent>, j: int) -> int
    decreases events.len(),
{
    if events.len() == 0 {
        0
    } else {
        let rest = events.drop_last();
        entries_below(rest, j) + match events.last() {
            TocEvent::Chapter(_) => if sec_index_at(rest) < j {
                1int
            } else {
                0int
            },
            _ => 0int,
        }
    }
}

impl MainPageData {
    pub fn new() -> (d: MainPageData)
        ensures
            d@ == empty_data(),
    {
        let d = MainPageData {
            title: None,
            author: None,
            status: None,
            info_path: None,
            sections: Vec::new(),
            chapters: Vec::new(),
            chapter_count: 0,
        };
        proof {
            assert(d@ =~= empty_data());
        }
        d
    }

    /// Moves the pending chapters into the last section, if one exists.
    pub fn move_chapters_to_section(&mut self)
        ensures
            final(self)@ == flush_step(old(self)@),
    {
        if let Some(mut last) = self.sections.pop() {
            last.chapters.append(&mut self.chapters);
            self.sections.push(last);
            proof {
                assert(final(self)@.sections =~= flush_step(old(self)@).sections);
                assert(final(self)@ =~= flush_step(old(self)@));
            }
        }
    }

    /// Takes the next order number.
    pub fn increment_and_get_chapters(&mut self) -> (r: usize)
        requires
            old(self).chapter_count < usize::MAX,
        ensures
            r == old(self).chapter_count + 1,
            *final(self) == (MainPageData { chapter_count: r, ..*old(self) }),
    {
        self.chapter_count = self.chapter_count + 1;
        self.chapter_count
    }

    pub fn get_title(&mut self, text: String)
        ensures
            final(self)@ == toc_step(old(self)@, TocEvent::Title(text)),
    {
        self.title = Some(text);
    }

    pub fn get_author(&mut self, text: String)
        ensures
            final(self)@ == toc_step(old(self)@, TocEvent::Author(text)),
    {
        self.author = Some(text);
    }

    pub fn get_status(&mut self, status: NovelStatus)
        ensures
            final(self)@ == toc_step(old(self)@, TocEvent::Status(status)),
    {
        self.status = Some(status);
    }

    pub fn get_info_path(&mut self, path: String)
        ensures
            final(self)@ == toc_step(old(self)@, TocEvent::InfoLink(path)),
    {
        self.info_path = Some(path);
    }

    /// A new section heading: the chapters seen since the previous heading
    /// move into that heading's section first.
    pub fn get_section(&mut self, name: String)
        ensures
            final(self)@ == toc_step(old(self)@, TocEvent::Section(name)),
    {
        self.move_chapters_to_section();
        self.sections.push(SectionInfo { name, chapters: Vec::new() });
        proof {
            assert(final(self)@.sections =~= toc_step(old(self)@, TocEvent::Section(name)).sections);
            assert(final(self)@ =~= toc_step(old(self)@, TocEvent::Section(name)));
        }
    }

    /// A new chapter row: it is assigned the next order number, in page
    /// order, and joins the pending chapters.
    pub fn get_chapter(&mut self, name: String, date: String, path: String)
        requires
            old(self).chapter_count < usize::MAX,
        ensures
            final(self)@ == toc_step(
                old(self)@,
                TocEvent::Chapter(ChapterEntry { name, date, path }),
            ),
    {
        let order_num = self.increment_and_get_chapters();
        self.chapters.push(ChapterInfo { name, date, order_num, path });
        proof {
            assert(final(self)@ =~= toc_step(
                old(self)@,
                TocEvent::Chapter(ChapterEntry { name, date, path }),
            ));
        }
    }

    /// Applies one scan event.
    pub fn apply_event(&mut self, e: TocEvent)
        requires
            old(self).chapter_count < usize::MAX,
        ensures
            final(self)@ == toc_step(old(self)@, e),
    {
        match e {
            TocEvent::Title(t) => self.get_title(t),
            TocEvent::Author(a) => self.get_author(a),
            TocEvent::Status(s) => self.get_status(s),
            TocEvent::InfoLink(p) => self.get_info_path(p),
            TocEvent::Section(name) => self.get_section(name),
            TocEvent::Chapter(entry) => self.get_chapter(entry.name, entry.date, entry.path),
        }
    }
}

/// The chapter counter never outruns the number of chapter rows.
pub proof fn lemma_count_is_entries(events: Seq<TocEvent>)
    ensures
        toc_run(events).chapter_count == entries_of(events).len(),
        entries_of(events).len() <= events.len(),
    decreases events.len(),
{
    if events.len() > 0 {
        lemma_count_is_entries(events.drop_last());
    }
}

/// Folds a whole scan, event by event, in page order. The final flush is
/// left to the caller, as it is only correct once the scan has ended.
pub fn process_toc_events(events: Vec<TocEvent>) -> (d: MainPageData)
    ensures
        d@ == toc_run(events@),
{
    let mut d = MainPageData::new();
    let mut events = events;
    let total = events.len();
    let ghost all_events: Seq<TocEvent> = events@;
    let mut i: usize = 0;
    proof {
        assert(all_events.subrange(0, 0) =~= Seq::<TocEvent>::empty());
        assert(events@ =~= all_events.subrange(0, all_events.len() as int));
    }
    while events.len() > 0
        invariant
            total == all_events.len(),
            i + events@.len() == all_events.len(),
            events@ == all_events.subrange(i as int, all_events.len() as int),
            d@ == toc_run(all_events.subrange(0, i as int)),
        decreases events@.len(),
    {
        let e = events.remove(0);
        proof {
            assert(e == all_events[i as int]);
            lemma_count_is_entries(all_events.subrange(0, i as int));
            assert(d@.chapter_count < usize::MAX);
            assert(all_events.subrange(0, i as int + 1).drop_last() =~= all_events.subrange(
                0,
                i as int,
            ));
            assert(all_events.subrange(0, i as int + 1).last() == e);
            assert(events@ =~= all_events.subrange(i as int + 1, all_events.len() as int));
        }
        d.apply_event(e);
        i = i + 1;
    }
    proof {
        assert(all_events.subrange(0, all_events.len() as int) =~= all_events);
    }
    d
}

/// What holds of the accumulator after any event prefix: the counter is the
/// number of chapter rows seen; each closed section already holds exactly
/// the rows that belong to it; the last section is still empty and its rows
/// wait in the pending list.
pub open spec fn run_state_ok(events: Seq<TocEvent>) -> bool {
    let s = toc_run(events);
    let h = headings_of(events).len() as int;
    let ne = numbered_entries(events);
    &&& s.chapter_count == entries_of(events).len()
    &&& s.sections.len() == h
    &&& (forall|j: int|
        0 <= j < h ==> (#[trigger] s.sections[j]).name == headings_of(events)[j])
    &&& (h == 0 ==> s.chapters == ne)
    &&& (h >= 1 ==> {
        &&& (forall|j: int|
            0 <= j < h - 1 ==> (#[trigger] s.sections[j]).chapters == ne.subrange(
                entries_below(events, j),
                entries_below(events, j + 1),
            ))
        &&& s.sections[h - 1].chapters == Seq::<ChapterInfo>::empty()
        &&& s.chapters == ne.subrange(entries_below(events, h - 1), ne.len() as int)
    })
}

proof fn lemma_entries_below_zero(events: Seq<TocEvent>)
    ensures
        entries_below(events, 0) == 0,
    decreases events.len(),
{
    if events.len() > 0 {
        lemma_entries_below_zero(events.drop_last());
    }
}

proof fn lemma_entries_below_bounds(events: Seq<TocEvent>, j: int)
    ensures
        0 <= entries_below(events, j) <= entries_of(events).len(),
    decreases events.len(),
{
    if events.len() > 0 {
        lemma_entries_below_bounds(events.drop_last(), j);
    }
}

proof fn lemma_entries_below_mono(events: Seq<TocEvent>, j1: int, j2: int)
    requires
        j1 <= j2,
    ensures
        entries_below(events, j1) <= entries_below(events, j2),
    decreases events.len(),
{
    if events.len() > 0 {
        lemma_entries_below_mono(events.drop_last(), j1, j2);
    }
}

/// Every chapter row's section index stays below the number of headings
/// already seen (or is 0), so a bound at or above the final heading count
/// counts every row.
proof fn lemma_entries_below_all(events: Seq<TocEvent>, j: int)
    requires
        j >= 1,
        j >= headings_of(events).len(),
    ensures
        entries_below(events, j) == entries_of(events).len(),
    decreases events.len(),
{
    if events.len() > 0 {
        let rest = events.drop_last();
        lemma_entries_below_all(rest, j);
    }
}

/// The accumulator invariant holds after every event prefix.
pub proof fn lemma_toc_run_state(events: Seq<TocEvent>)
    ensures
        run_state_ok(events),
    decreases events.len(),
{
    if events.len() == 0 {
        assert(numbered_entries(events) =~= Seq::<ChapterInfo>::empty());
    } else {
        let rest = events.drop_last();
        lemma_toc_run_state(rest);
        let e = events.last();
        let s_r = toc_run(rest);
        let s = toc_run(events);
        let ne_r = numbered_entries(rest);
        let ne = numbered_entries(events);
        let h_r = headings_of(rest).len() as int;
        let h = headings_of(events).len() as int;
        match e {
            TocEvent::Chapter(entry) => {
                assert(entries_of(events) == entries_of(rest).push(entry));
                assert(headings_of(events) == headings_of(rest));
                assert(ne =~= ne_r.push(info_of(entry, ne_r.len() as int + 1)));
                if h >= 1 {
                    assert(sec_index_at(rest) == h - 1);
                    lemma_entries_below_bounds(rest, h - 1);
                    assert(s.chapters =~= ne.subrange(
                        entries_below(events, h - 1),
                        ne.len() as int,
                    ));
                    assert forall|j: int| 0 <= j < h - 1 implies (
                    #[trigger] s.sections[j]).chapters == ne.subrange(
                        entries_below(events, j),
                        entries_below(events, j + 1),
                    ) by {
                        lemma_entries_below_bounds(rest, j);
                        lemma_entries_below_bounds(rest, j + 1);
                        lemma_entries_below_bounds(rest, h - 1);
                        lemma_entries_below_mono(rest, j, j + 1);
                        lemma_entries_below_mono(rest, j + 1, h - 1);
                        assert(entries_below(events, j) == entries_below(rest, j));
                        assert(entries_below(events, j + 1) == entries_below(rest, j + 1));
                        assert(ne.subrange(
                            entries_below(events, j),
                            entries_below(events, j + 1),
                        ) =~= ne_r.subrange(
                            entries_below(rest, j),
                            entries_below(rest, j + 1),
                        ));
                    }
                } else {
                    assert(s.chapters =~= ne);
                }
            },
            TocEvent::Section(name) => {
                assert(entries_of(events) == entries_of(rest));
                assert(headings_of(events) == headings_of(rest).push(name));
                assert(ne =~= ne_r);
                assert(h == h_r + 1);
                lemma_entries_below_zero(rest);
                if h_r == 0 {
                    assert(s.chapters =~= ne.subrange(
                        entries_below(events, h - 1),
                        ne.len() as int,
                    ));
                } else {
                    lemma_entries_below_all(rest, h_r);
                    lemma_entries_below_bounds(rest, h_r - 1);
                    let flushed = flush_step(s_r);
                    assert(flushed.sections[h_r - 1].chapters =~= s_r.chapters);
                    assert(entries_below(events, h_r - 1) == entries_below(rest, h_r - 1));
                    assert(entries_below(events, h_r) == entries_below(rest, h_r));
                    assert(s.sections[h_r - 1].chapters =~= ne.subrange(
                        entries_below(events, h_r - 1),
                        entries_below(events, h_r),
                    ));
                    assert forall|j: int| 0 <= j < h - 1 implies (
                    #[trigger] s.sections[j]).chapters == ne.subrange(
                        entries_below(events, j),
                        entries_below(events, j + 1),
                    ) by {
                        if j < h_r - 1 {
                            assert(s.sections[j] == s_r.sections[j]);
                            assert(entries_below(events, j) == entries_below(rest, j));
                            assert(entries_below(events, j + 1) == entries_below(rest, j + 1));
                            lemma_entries_below_bounds(rest, j);
                            lemma_entries_below_bounds(rest, j + 1);
                            lemma_entries_below_mono(rest, j, j + 1);
                            assert(ne.subrange(
                                entries_below(events, j),
                                entries_below(events, j + 1),
                            ) =~= ne_r.subrange(
                                entries_below(rest, j),
                                entries_below(rest, j + 1),
                            ));
                        } else {
                            assert(j == h_r - 1);
                        }
                    }
                    assert(s.chapters =~= ne.subrange(
                        entries_below(events, h - 1),
                        ne.len() as int,
                    ));
                }
            },
            _ => {
                assert(entries_of(events) == entries_of(rest));
                assert(headings_of(events) == headings_of(rest));
                assert(ne =~= ne_r);
                assert(s.sections == s_r.sections);
                assert(s.chapters == s_r.chapters);
            },
        }
    }
}

/// What holds after the scan's final flush: the counter still counts the
/// rows; with no headings the rows stand on their own in page order; with
/// headings every section, the last included, holds exactly the rows that
/// belong to it, and no row is left pending.
pub open spec fn final_state_ok(events: Seq<TocEvent>) -> bool {
    let f = toc_final(events);
    let h = headings_of(events).len() as int;
    let ne = numbered_entries(events);
    &&& f.chapter_count == entries_of(events).len()
    &&& f.sections.len() == h
    &&& (forall|j: int|
        0 <= j < h ==> (#[trigger] f.sections[j]).name == headings_of(events)[j])
    &&& (h == 0 ==> f.chapters == ne)
    &&& (h >= 1 ==> {
        &&& f.chapters.len() == 0
        &&& (forall|j: int|
            0 <= j < h ==> (#[trigger] f.sections[j]).chapters == ne.subrange(
                entries_below(events, j),
                entries_below(events, j + 1),
            ))
    })
}

/// The final-state invariant holds of every scan.
pub proof fn lemma_toc_final_state(events: Seq<TocEvent>)
    ensures
        final_state_ok(events),
{
    lemma_toc_run_state(events);
    let s = toc_run(events);
    let f = toc_final(events);
    let h = headings_of(events).len() as int;
    let ne = numbered_entries(events);
    if h >= 1 {
        lemma_entries_below_all(events, h);
        lemma_entries_below_bounds(events, h - 1);
        assert(f.sections[h - 1].chapters =~= ne.subrange(
            entries_below(events, h - 1),
            entries_below(events, h),
        ));
        assert forall|j: int| 0 <= j < h implies (#[trigger] f.sections[j]).chapters
            == ne.subrange(entries_below(events, j), entries_below(events, j + 1)) by {
            if j < h - 1 {
                assert(f.sections[j] == s.sections[j]);
            }
        }
    }
}

/// The chapters of a run of sections, joined in section order.
pub open spec fn flat_sections(ss: Seq<SectionInfoV>) -> Seq<ChapterInfo>
    decreases ss.len(),
{
    if ss.len() == 0 {
        Seq::empty()
    } else {
        flat_sections(ss.drop_last()) + ss.last().chapters
    }
}

/// All chapters of an accumulator, in section order, the pending ones last.
pub open spec fn flat_chapters(d: MainPageDataV) -> Seq<ChapterInfo> {
    flat_sections(d.sections) + d.chapters
}

proof fn lemma_flat_prefix(events: Seq<TocEvent>, k: int)
    requires
        headings_of(events).len() >= 1,
        0 <= k <= headings_of(events).len(),
    ensures
        flat_sections(toc_final(events).sections.subrange(0, k)) == numbered_entries(
            events,
        ).subrange(0, entries_below(events, k)),
    decreases k,
{
    lemma_toc_final_state(events);
    let f = toc_final(events);
    let ne = numbered_entries(events);
    lemma_entries_below_bounds(events, k);
    if k == 0 {
        lemma_entries_below_zero(events);
        assert(flat_sections(f.sections.subrange(0, 0)) =~= ne.subrange(0, 0));
    } else {
        lemma_flat_prefix(events, k - 1);
        lemma_entries_below_bounds(events, k - 1);
        lemma_entries_below_mono(events, k - 1, k);
        assert(f.sections.subrange(0, k).drop_last() =~= f.sections.subrange(0, k - 1));
        assert(f.sections.subrange(0, k).last() == f.sections[k - 1]);
        assert(ne.subrange(0, entries_below(events, k - 1)) + ne.subrange(
            entries_below(events, k - 1),
            entries_below(events, k),
        ) =~= ne.subrange(0, entries_below(events, k)));
    }
}

/// LAW: the assembled chapters are exactly the page's chapter rows, in page
/// order, and row `i` carries order number `i + 1`: a strictly increasing,
/// gap-free sequence starting at 1, independent of anything that happens
/// after the scan.
pub proof fn lemma_order_numbers(events: Seq<TocEvent>)
    ensures
        flat_chapters(toc_final(events)) == numbered_entries(events),
        flat_chapters(toc_final(events)).len() == entries_of(events).len(),
        forall|i: int|
            0 <= i < entries_of(events).len() ==> (#[trigger] flat_chapters(toc_final(events))[i])
                == info_of(entries_of(events)[i], i + 1),
{
    lemma_toc_final_state(events);
    let f = toc_final(events);
    let h = headings_of(events).len() as int;
    let ne = numbered_entries(events);
    if h == 0 {
        assert(flat_sections(f.sections) =~= Seq::<ChapterInfo>::empty());
        assert(flat_chapters(f) =~= ne);
    } else {
        lemma_flat_prefix(events, h);
        lemma_entries_below_all(events, h);
        assert(f.sections.subrange(0, h) =~= f.sections);
        assert(ne.subrange(0, ne.len() as int) =~= ne);
        assert(flat_chapters(f) =~= ne);
    }
}

/// LAW: with at least one heading, the sections partition the chapter rows
/// with no loss and no duplication; a row belongs to the nearest preceding
/// heading's section, rows seen before the first heading falling to the
/// first section; nothing is left outside a section.
pub proof fn lemma_sections_partition(events: Seq<TocEvent>)
    requires
        headings_of(events).len() >= 1,
    ensures
        toc_final(events).chapters.len() == 0,
        toc_final(events).sections.len() == headings_of(events).len(),
        forall|j: int|
            0 <= j < headings_of(events).len() ==> (#[trigger] toc_final(events).sections[j]).name
                == headings_of(events)[j],
        forall|j: int|
            0 <= j < headings_of(events).len() ==> (#[trigger] toc_final(
                events,
            ).sections[j]).chapters == numbered_entries(events).subrange(
                entries_below(events, j),
                entries_below(events, j + 1),
            ),
        flat_sections(toc_final(events).sections) == numbered_entries(events),
{
    lemma_toc_final_state(events);
    lemma_order_numbers(events);
    let f = toc_final(events);
    assert(flat_sections(f.sections) + f.chapters =~= flat_sections(f.sections));
}

} // verus!
