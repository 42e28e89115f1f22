//! The canonical document model: a `Novel` is a validated, ordered,
//! strongly-typed representation of one serialized work's narrative
//! content, assembled from many independently fetched pages. This module
//! also holds the validated fetch plan that stands between scanning a
//! work's main page and fetching its chapter pages, and the assembly step
//! that turns fetched pages into the finished model.

use vstd::prelude::*;
use vstd::pervasive::unreached;
use vstd::string::StringExecFns;

use crate::novel::toc::{ChapterInfo, SectionInfo, TocEvent};
use crate::{NovelComponent, NovelError, NovelResult};

pub mod kakuyomu;
pub mod novel_utils;
pub mod syosetu;
pub mod toc;

verus! {

/// Publication status of a work, mapped from each source's own vocabulary.
#[derive(Clone, Copy, PartialEq, Eq, Structural, Debug)]
pub enum NovelStatus {
    Running,
    Finished,
}

impl NovelStatus {
    /// The completion stamp appended to a finished work's book name; the
    /// leading space keeps the name well-formed when the stamp is glued on.
    pub fn kan_stamp(self) -> (r: &'static str)
        ensures
            self is Running ==> r@ == ""@,
            self is Finished ==> r@ == " (完)"@,
    {
        match self {
            Self::Running => "",
            Self::Finished => " (完)",
        }
    }

    /// The status line shown on a work's cover page.
    pub fn status_text(self) -> (r: &'static str)
        ensures
            self is Running ==> r@ == "連載中"@,
            self is Finished ==> r@ == "完結済"@,
    {
        match self {
            Self::Running => "連載中",
            Self::Finished => "完結済",
        }
    }
}

/// One span of a content line: either a plain run of text, or a base text
/// with a phonetic gloss above it. An annotated span only ever exists with
/// both halves present.
#[derive(Debug, Clone, PartialEq)]
pub enum Content {
    Span(String),
    Ruby { main: String, above: String },
}

/// One paragraph-level line of a chapter. Blank lines are structurally
/// meaningful paragraph breaks and are kept as they stand.
#[derive(Debug, Clone, PartialEq)]
pub enum ContentLine {
    Line(Vec<Content>),
    Blank,
}

/// The abstract value of a `ContentLine`.
pub ghost enum ContentLineV {
    Line(Seq<Content>),
    Blank,
}

impl View for ContentLine {
    type V = ContentLineV;

    open spec fn view(&self) -> ContentLineV {
        match self {
            ContentLine::Line(spans) => ContentLineV::Line(spans@),
            ContentLine::Blank => ContentLineV::Blank,
        }
    }
}

/// One chapter of the finished work. The chapter's title is never repeated
/// inside its own content: the content begins after the title by
/// construction.
#[derive(Debug, Clone, PartialEq)]
pub struct Chapter {
    pub name: String,
    /// Whatever date text the page shows; it is carried, not interpreted.
    pub date: String,
    pub order_num: usize,
    pub content: Vec<ContentLine>,
}

/// One section of the finished work: a heading and at least one chapter.
#[derive(Debug, Clone, PartialEq)]
pub struct Section {
    pub name: String,
    pub chapters: Vec<Chapter>,
}

/// The body of a work: sections where the table of contents had headings,
/// a flat chapter list where it had none.
#[derive(Debug, Clone, PartialEq)]
pub enum NovelContents {
    Sections(Vec<Section>),
    Chapters(Vec<Chapter>),
}

/// The finished document model for one work.
#[derive(Debug, Clone, PartialEq)]
pub struct Novel {
    pub title: String,
    pub author: String,
    pub status: NovelStatus,
    pub source_url: String,
    pub contents: NovelContents,
}

impl Novel {
    /// The work's display name: the title with the author in brackets.
    pub fn print_name(&self) -> (r: String)
        ensures
            r@ == self.title@ + " ["@ + self.author@ + "]"@,
    {
        let mut r = self.title.clone();
        r.append(" [");
        r.append(self.author.as_str());
        r.append("]");
        r
    }
}

/// The smallest and largest order number among the chapters.
pub fn chapter_range(chapters: &Vec<Chapter>) -> (r: (usize, usize))
    requires
        chapters@.len() > 0,
    ensures
        forall|i: int|
            0 <= i < chapters@.len() ==> r.0 <= (#[trigger] chapters@[i]).order_num <= r.1,
        exists|i: int| 0 <= i < chapters@.len() && (#[trigger] chapters@[i]).order_num == r.0,
        exists|i: int| 0 <= i < chapters@.len() && (#[trigger] chapters@[i]).order_num == r.1,
{
    let mut min_num = chapters[0].order_num;
    let mut max_num = chapters[0].order_num;
    let mut i: usize = 1;
    while i < chapters.len()
        invariant
            1 <= i <= chapters@.len(),
            forall|k: int| 0 <= k < i ==> min_num <= (#[trigger] chapters@[k]).order_num <= max_num,
            exists|k: int| 0 <= k < i && (#[trigger] chapters@[k]).order_num == min_num,
            exists|k: int| 0 <= k < i && (#[trigger] chapters@[k]).order_num == max_num,
        decreases chapters@.len() - i,
    {
        let n = chapters[i].order_num;
        if n < min_num {
            min_num = n;
        }
        if n > max_num {
            max_num = n;
        }
        i += 1;
    }
    (min_num, max_num)
}

/// The planned body of a work: the fetch descriptors in their sections, or
/// flat when the table of contents had no headings.
#[derive(Debug, Clone, PartialEq)]
pub enum PlanContents {
    Sections(Vec<SectionInfo>),
    Chapters(Vec<ChapterInfo>),
}

/// A validated fetch plan: everything a work's main page provides, plus
/// the descriptors of the pages still to fetch. The status may still be
/// open when the source keeps it on a separate information page.
#[derive(Debug, Clone, PartialEq)]
pub struct NovelPlan {
    pub title: String,
    pub author: String,
    pub status: Option<NovelStatus>,
    pub info_path: Option<String>,
    pub contents: PlanContents,
}

/// The descriptors of a run of planned sections, joined in section order.
pub open spec fn flat_plan(ss: Seq<SectionInfo>) -> Seq<ChapterInfo>
    decreases ss.len(),
{
    if ss.len() == 0 {
        Seq::empty()
    } else {
        flat_plan(ss.drop_last()) + ss.last().chapters@
    }
}

/// All fetch descriptors of a plan's body, in order-number order.
pub open spec fn flat_infos(c: PlanContents) -> Seq<ChapterInfo> {
    match c {
        PlanContents::Chapters(chs) => chs@,
        PlanContents::Sections(ss) => flat_plan(ss@),
    }
}

/// Order numbers are 1, 2, 3, ... in sequence: strictly increasing and
/// gap-free from 1.
pub open spec fn numbered_from_one(chs: Seq<ChapterInfo>) -> bool {
    forall|i: int| 0 <= i < chs.len() ==> (#[trigger] chs[i]).order_num as int == i + 1
}

/// A well-formed plan body: never empty, no empty section, and the
/// descriptors numbered 1, 2, 3, ... across the whole body.
pub open spec fn plan_contents_wf(c: PlanContents) -> bool {
    &&& flat_infos(c).len() >= 1
    &&& numbered_from_one(flat_infos(c))
    &&& (c matches PlanContents::Sections(ss) ==> ss@.len() >= 1 && (forall|j: int|
        0 <= j < ss@.len() ==> (#[trigger] ss@[j]).chapters@.len() >= 1))
}

pub open spec fn plan_wf(p: NovelPlan) -> bool {
    plan_contents_wf(p.contents)
}

impl NovelPlan {
    /// Records the status once the information page has been read.
    pub fn set_status(&mut self, status: NovelStatus)
        ensures
            *final(self) == (NovelPlan { status: Some(status), ..*old(self) }),
    {
        self.status = Some(status);
    }
}

/// The outcome of validating a scan's body: no chapters and no sections
/// means the page had no chapter list at all; a section without chapters
/// is refused; otherwise the sections (or, with no headings, the flat
/// chapter list) become the plan's body.
pub open spec fn contents_spec(sections: Vec<SectionInfo>, chapters: Vec<ChapterInfo>) -> Result<
    PlanContents,
    NovelError,
> {
    if sections@.len() == 0 {
        if chapters@.len() == 0 {
            Err(NovelError::ComponentMissing(NovelComponent::Chapter))
        } else {
            Ok(PlanContents::Chapters(chapters))
        }
    } else {
        if exists|j: int| 0 <= j < sections@.len() && (#[trigger] sections@[j]).chapters@.len()
            == 0 {
            Err(NovelError::ComponentMissing(NovelComponent::ChapterUnderSection))
        } else {
            Ok(PlanContents::Sections(sections))
        }
    }
}

/// Validates a scan's body, exactly as `contents_spec` says.
pub fn contents_of(sections: Vec<SectionInfo>, chapters: Vec<ChapterInfo>) -> (r: NovelResult<
    PlanContents,
>)
    ensures
        r == contents_spec(sections, chapters),
{
    if sections.len() == 0 {
        if chapters.len() == 0 {
            Err(NovelError::ComponentMissing(NovelComponent::Chapter))
        } else {
            Ok(PlanContents::Chapters(chapters))
        }
    } else {
        let mut j: usize = 0;
        while j < sections.len()
            invariant
                0 <= j <= sections@.len(),
                forall|k: int| 0 <= k < j ==> (#[trigger] sections@[k]).chapters@.len() > 0,
            decreases sections@.len() - j,
        {
            if sections[j].chapters.len() == 0 {
                return Err(NovelError::ComponentMissing(NovelComponent::ChapterUnderSection));
            }
            j += 1;
        }
        Ok(PlanContents::Sections(sections))
    }
}

/// What assembly promises of one chapter: it carries its descriptor's
/// name, date text and order number, and its content is never empty.
pub open spec fn chapter_matches(info: ChapterInfo, c: Chapter) -> bool {
    &&& c.name == info.name
    &&& c.date == info.date
    &&& c.order_num == info.order_num
    &&& c.content@.len() >= 1
}

/// What assembly promises of a chapter list: one chapter per descriptor,
/// in descriptor order.
pub open spec fn chapters_match(infos: Seq<ChapterInfo>, chs: Seq<Chapter>) -> bool {
    &&& chs.len() == infos.len()
    &&& forall|i: int| 0 <= i < infos.len() ==> chapter_matches(infos[i], #[trigger] chs[i])
}

/// What assembly promises of a whole body: the same shape as the plan,
/// section names kept, every chapter matching its descriptor.
pub open spec fn contents_match(p: PlanContents, n: NovelContents) -> bool {
    match (p, n) {
        (PlanContents::Chapters(infos), NovelContents::Chapters(chs)) => chapters_match(
            infos@,
            chs@,
        ),
        (PlanContents::Sections(ss), NovelContents::Sections(ns)) => {
            &&& ns@.len() == ss@.len()
            &&& forall|j: int|
                0 <= j < ss@.len() ==> (#[trigger] ns@[j]).name == ss@[j].name && chapters_match(
                    ss@[j].chapters@,
                    ns@[j].chapters@,
                )
        },
        _ => false,
    }
}

/// The chapters of a run of assembled sections, joined in section order.
pub open spec fn flat_work(ss: Seq<Section>) -> Seq<Chapter>
    decreases ss.len(),
{
    if ss.len() == 0 {
        Seq::empty()
    } else {
        flat_work(ss.drop_last()) + ss.last().chapters@
    }
}

/// A well-formed body: never empty, no empty section, every chapter's
/// content nonempty, and the chapters numbered 1, 2, 3, ... across the
/// whole body, in order.
pub open spec fn work_contents_wf(n: NovelContents) -> bool {
    match n {
        NovelContents::Chapters(chs) => {
            &&& chs@.len() >= 1
            &&& forall|i: int|
                0 <= i < chs@.len() ==> (#[trigger] chs@[i]).order_num as int == i + 1
                    && chs@[i].content@.len() >= 1
        },
        NovelContents::Sections(ss) => {
            &&& ss@.len() >= 1
            &&& (forall|j: int| 0 <= j < ss@.len() ==> (#[trigger] ss@[j]).chapters@.len() >= 1)
            &&& forall|i: int|
                0 <= i < flat_work(ss@).len() ==> (#[trigger] flat_work(ss@)[i]).order_num as int
                    == i + 1 && flat_work(ss@)[i].content@.len() >= 1
        },
    }
}

/// The whole invariant of a finished work's body.
pub open spec fn work_wf(n: Novel) -> bool {
    work_contents_wf(n.contents)
}

/// The descriptors of planned sections, seen through their views.
pub proof fn lemma_flat_plan_view(ss: Seq<SectionInfo>)
    ensures
        flat_plan(ss) == toc::flat_sections(
            ss.map_values(|s: SectionInfo| s@),
        ),
    decreases ss.len(),
{
    let m = ss.map_values(|s: SectionInfo| s@);
    if ss.len() == 0 {
        assert(flat_plan(ss) =~= toc::flat_sections(m));
    } else {
        lemma_flat_plan_view(ss.drop_last());
        assert(m.drop_last() =~= ss.drop_last().map_values(|s: SectionInfo| s@));
        assert(m.last() == ss.last()@);
    }
}

/// A plan validated out of a finished scan is well-formed: the scan's
/// partition and numbering laws carry over to whichever body shape the
/// validation accepts.
pub proof fn lemma_scan_plan_wf(evs: Seq<TocEvent>, data: toc::MainPageData, total: int)
    requires
        data@ == toc::toc_final(evs),
        evs.len() <= total,
        total <= usize::MAX,
    ensures
        contents_spec(data.sections, data.chapters) matches Ok(c) ==> plan_contents_wf(c)
            && flat_infos(c) == toc::numbered_entries(evs),
{
    toc::lemma_toc_final_state(evs);
    toc::lemma_order_numbers(evs);
    toc::lemma_count_is_entries(evs);
    lemma_flat_plan_view(data.sections@);
    let ne = toc::numbered_entries(evs);
    let h = toc::headings_of(evs).len() as int;
    if data.sections@.len() == 0 {
        assert(data@.sections.len() == 0);
        assert(data.chapters@ == ne);
        assert(toc::flat_sections(data@.sections) =~= Seq::<toc::ChapterInfo>::empty());
        assert(toc::flat_chapters(data@) =~= data.chapters@);
        assert forall|i: int| 0 <= i < ne.len() implies (#[trigger] ne[i]).order_num as int == i + 1
        by {
            assert(ne[i] == toc::info_of(toc::entries_of(evs)[i], i + 1));
            assert(0 < i + 1 <= toc::entries_of(evs).len() <= total);
        }
    } else {
        assert(data@.sections.len() == data.sections@.len());
        assert(h >= 1);
        assert(data@.chapters.len() == 0);
        assert(toc::flat_chapters(data@) =~= toc::flat_sections(data@.sections));
        assert(flat_plan(data.sections@) == ne);
        assert forall|i: int| 0 <= i < ne.len() implies (#[trigger] ne[i]).order_num as int == i + 1
        by {
            assert(ne[i] == toc::info_of(toc::entries_of(evs)[i], i + 1));
            assert(0 < i + 1 <= toc::entries_of(evs).len() <= total);
        }
        if contents_spec(data.sections, data.chapters) is Ok {
            assert(data.sections@[0].chapters@.len() > 0);
            lemma_flat_plan_front(data.sections@);
        }
    }
}

/// Matching section lists have matching flattened chapter runs.
proof fn lemma_flat_match(ss: Seq<SectionInfo>, ns: Seq<Section>)
    requires
        ns.len() == ss.len(),
        forall|j: int|
            0 <= j < ss.len() ==> chapters_match(ss[j].chapters@, (#[trigger] ns[j]).chapters@),
    ensures
        flat_work(ns).len() == flat_plan(ss).len(),
        forall|i: int|
            0 <= i < flat_plan(ss).len() ==> chapter_matches(
                #[trigger] flat_plan(ss)[i],
                flat_work(ns)[i],
            ),
    decreases ns.len(),
{
    if ns.len() > 0 {
        lemma_flat_match(ss.drop_last(), ns.drop_last());
    }
}

/// A body assembled from a well-formed plan is itself well-formed.
pub proof fn lemma_assembled_wf(p: PlanContents, n: NovelContents)
    requires
        plan_contents_wf(p),
        contents_match(p, n),
    ensures
        work_contents_wf(n),
{
    match (p, n) {
        (PlanContents::Chapters(infos), NovelContents::Chapters(chs)) => {
            assert forall|i: int|
                0 <= i < chs@.len() implies (#[trigger] chs@[i]).order_num as int == i + 1
                && chs@[i].content@.len() >= 1 by {
                assert(chapter_matches(infos@[i], chs@[i]));
                assert(infos@[i].order_num as int == i + 1);
            }
        },
        (PlanContents::Sections(ss), NovelContents::Sections(ns)) => {
            lemma_flat_match(ss@, ns@);
            assert forall|i: int|
                0 <= i < flat_work(ns@).len() implies (#[trigger] flat_work(ns@)[i]).order_num
                as int == i + 1 && flat_work(ns@)[i].content@.len() >= 1 by {
                assert(chapter_matches(flat_plan(ss@)[i], flat_work(ns@)[i]));
                assert(flat_plan(ss@)[i].order_num as int == i + 1);
            }
        },
        _ => {},
    }
}

/// What reading one chapter page can report: a malformed annotation, a
/// page without content, or a selector defect.
pub open spec fn extraction_error(e: NovelError) -> bool {
    ||| e == NovelError::MalformedAnnotation
    ||| e == NovelError::ComponentMissing(NovelComponent::ChapterContent)
    ||| e is TraverseError
}

/// What an assembly error can be: the first failed fetch's own error, in
/// descriptor order with everything before it fetched; or a chapter's
/// extraction failure, wrapped with that chapter's own order number,
/// again with every earlier page fetched.
pub open spec fn assembly_error_ok(
    e: NovelError,
    pages: Seq<Result<String, NovelError>>,
    infos: Seq<ChapterInfo>,
) -> bool {
    ||| (exists|i: int|
        {
            &&& 0 <= i < infos.len()
            &&& (#[trigger] pages[i]) matches Err(pe)
            &&& pe == e
            &&& forall|j: int| 0 <= j < i ==> (#[trigger] pages[j]) is Ok
        })
    ||| (exists|i: int|
        {
            &&& 0 <= i < infos.len()
            &&& (#[trigger] pages[i]) is Ok
            &&& e matches NovelError::InChapter(k, cause)
            &&& k == infos[i].order_num
            &&& extraction_error(*cause)
            &&& forall|j: int| 0 <= j < i ==> (#[trigger] pages[j]) is Ok
        })
}

/// Assembles one run of chapters: consumes one fetched page per
/// descriptor, front to back, extracting each chapter's content with the
/// site's own extractor. Stops at the first failure.
fn assemble_chapter_list(
    site: &NovelSite,
    infos: Vec<ChapterInfo>,
    pages: &mut Vec<Result<String, NovelError>>,
) -> (r: NovelResult<Vec<Chapter>>)
    requires
        old(pages)@.len() >= infos@.len(),
    ensures
        r matches Ok(chs) ==> {
            &&& chapters_match(infos@, chs@)
            &&& final(pages)@ == old(pages)@.subrange(infos@.len() as int, old(pages)@.len() as int)
            &&& forall|i: int| 0 <= i < infos@.len() ==> (#[trigger] old(pages)@[i]) is Ok
        },
        r matches Err(e) ==> assembly_error_ok(e, old(pages)@, infos@),
{
    let mut rest = infos;
    let mut chapters: Vec<Chapter> = Vec::new();
    let ghost infos0 = rest@;
    let ghost pages0 = pages@;
    proof {
        assert(rest@ =~= infos0.subrange(0, infos0.len() as int));
        assert(pages@ =~= pages0.subrange(0, pages0.len() as int));
    }
    while rest.len() > 0
        invariant
            infos0 == infos@,
            pages0 == old(pages)@,
            chapters@.len() + rest@.len() == infos0.len(),
            rest@ == infos0.subrange(chapters@.len() as int, infos0.len() as int),
            pages@ == pages0.subrange(chapters@.len() as int, pages0.len() as int),
            pages0.len() >= infos0.len(),
            forall|i: int|
                0 <= i < chapters@.len() ==> chapter_matches(infos0[i], #[trigger] chapters@[i]),
            forall|i: int| 0 <= i < chapters@.len() ==> (#[trigger] pages0[i]) is Ok,
        decreases rest@.len(),
    {
        let ghost k = chapters@.len() as int;
        let info = rest.remove(0);
        let page = pages.remove(0);
        proof {
            assert(info == infos0[k]);
            assert(page == pages0[k]);
            assert(rest@ =~= infos0.subrange(k + 1, infos0.len() as int));
            assert(pages@ =~= pages0.subrange(k + 1, pages0.len() as int));
        }
        let html = match page {
            Ok(html) => html,
            Err(e) => {
                proof {
                    assert({
                        &&& 0 <= k < infos0.len()
                        &&& pages0[k] matches Err(pe)
                        &&& pe == e
                        &&& forall|j: int| 0 <= j < k ==> (#[trigger] pages0[j]) is Ok
                    });
                }
                return Err(e);
            },
        };
        let content = match site {
            NovelSite::Kakuyomu => self::kakuyomu::content::fetch_novel_content(html.as_str()),
            NovelSite::Syosetu => self::syosetu::content::fetch_page_content(html.as_str()),
        };
        let lines = match content {
            Ok(lines) => lines,
            Err(e) => {
                let wrapped = NovelError::InChapter(info.order_num, Box::new(e));
                proof {
                    assert({
                        &&& 0 <= k < infos0.len()
                        &&& pages0[k] is Ok
                        &&& wrapped matches NovelError::InChapter(o, cause)
                        &&& o == infos0[k].order_num
                        &&& extraction_error(*cause)
                        &&& forall|j: int| 0 <= j < k ==> (#[trigger] pages0[j]) is Ok
                    });
                }
                return Err(wrapped);
            },
        };
        chapters.push(
            Chapter { name: info.name, date: info.date, order_num: info.order_num, content: lines },
        );
    }
    Ok(chapters)
}

/// How many pages a run of planned sections consumes.
proof fn lemma_flat_plan_front(ss: Seq<SectionInfo>)
    requires
        ss.len() > 0,
    ensures
        flat_plan(ss) == ss[0].chapters@ + flat_plan(ss.subrange(1, ss.len() as int)),
    decreases ss.len(),
{
    if ss.len() == 1 {
        assert(ss.drop_last() =~= Seq::<SectionInfo>::empty());
        assert(ss.subrange(1, 1) =~= Seq::<SectionInfo>::empty());
        assert(flat_plan(ss) =~= ss[0].chapters@ + flat_plan(ss.subrange(1, 1)));
    } else {
        let tail = ss.subrange(1, ss.len() as int);
        lemma_flat_plan_front(ss.drop_last());
        assert(ss.drop_last()[0] == ss[0]);
        assert(ss.drop_last().subrange(1, ss.drop_last().len() as int) =~= tail.drop_last());
        assert(tail.last() == ss.last());
        assert(flat_plan(ss) =~= ss[0].chapters@ + flat_plan(tail));
    }
}

/// Assembles one run of sections: each section consumes its own chapters'
/// pages, in order. Stops at the first failure.
fn assemble_section_list(
    site: &NovelSite,
    sections: Vec<SectionInfo>,
    pages: &mut Vec<Result<String, NovelError>>,
) -> (r: NovelResult<Vec<Section>>)
    requires
        old(pages)@.len() >= flat_plan(sections@).len(),
    ensures
        r matches Ok(ns) ==> {
            &&& ns@.len() == sections@.len()
            &&& forall|j: int|
                0 <= j < sections@.len() ==> (#[trigger] ns@[j]).name == sections@[j].name
                    && chapters_match(sections@[j].chapters@, ns@[j].chapters@)
        },
        r matches Err(e) ==> assembly_error_ok(e, old(pages)@, flat_plan(sections@)),
{
    let mut rest = sections;
    let mut built: Vec<Section> = Vec::new();
    let ghost sections0 = rest@;
    let ghost pages0 = pages@;
    let ghost consumed: int = 0;
    proof {
        assert(rest@ =~= sections0.subrange(0, sections0.len() as int));
        assert(flat_plan(sections0.subrange(0, 0)) =~= Seq::<ChapterInfo>::empty());
    }
    while rest.len() > 0
        invariant
            sections0 == sections@,
            pages0 == old(pages)@,
            built@.len() + rest@.len() == sections0.len(),
            rest@ == sections0.subrange(built@.len() as int, sections0.len() as int),
            0 <= consumed <= pages0.len(),
            consumed == flat_plan(sections0.subrange(0, built@.len() as int)).len(),
            pages@ == pages0.subrange(consumed, pages0.len() as int),
            pages@.len() >= flat_plan(rest@).len(),
            forall|j: int| 0 <= j < consumed ==> (#[trigger] pages0[j]) is Ok,
            forall|j: int|
                0 <= j < built@.len() ==> (#[trigger] built@[j]).name == sections0[j].name
                    && chapters_match(sections0[j].chapters@, built@[j].chapters@),
        decreases rest@.len(),
    {
        let ghost k = built@.len() as int;
        let ghost pages_before = pages@;
        let section = rest.remove(0);
        proof {
            assert(section == sections0[k]);
            assert(rest@ =~= sections0.subrange(k + 1, sections0.len() as int));
            lemma_flat_plan_front(sections0.subrange(k, sections0.len() as int));
            assert(sections0.subrange(k, sections0.len() as int).subrange(
                1,
                sections0.len() as int - k,
            ) =~= sections0.subrange(k + 1, sections0.len() as int));
            lemma_flat_plan_cat(sections0, k);
        }
        let SectionInfo { name, chapters: chapter_infos } = section;
        let ghost n_here = chapter_infos@.len() as int;
        let ghost inner_infos = chapter_infos@;
        proof {
            assert(sections0.subrange(k, sections0.len() as int)[0] == sections0[k]);
            assert forall|i: int| 0 <= i < n_here implies flat_plan(sections0)[consumed + i] == 
            #[trigger] inner_infos[i] by {
                assert(flat_plan(sections0)[consumed + i] == flat_plan(
                    sections0.subrange(k, sections0.len() as int),
                )[i]);
                assert(flat_plan(sections0.subrange(k, sections0.len() as int))[i]
                    == inner_infos[i]);
            }
        }
        let chapters = match assemble_chapter_list(site, chapter_infos, pages) {
            Ok(chs) => chs,
            Err(e) => {
                proof {
                    lemma_assembly_error_shift(
                        e,
                        pages0,
                        pages_before,
                        flat_plan(sections0),
                        inner_infos,
                        consumed,
                    );
                }
                return Err(e);
            },
        };
        proof {
            assert forall|j: int| 0 <= j < consumed + n_here implies (#[trigger] pages0[j]) is Ok
            by {
                if j >= consumed {
                    assert(pages_before[j - consumed] is Ok);
                }
            }
            consumed = consumed + n_here;
            assert(pages@ =~= pages0.subrange(consumed, pages0.len() as int));
            assert(sections0.subrange(0, k + 1).drop_last() =~= sections0.subrange(0, k));
            assert(sections0.subrange(0, k + 1).last() == sections0[k]);
            assert(flat_plan(sections0.subrange(0, k + 1)) == flat_plan(
                sections0.subrange(0, k),
            ) + sections0[k].chapters@);
        }
        built.push(Section { name, chapters });
    }
    Ok(built)
}

/// An assembly error of an inner run, seen from the outer run: the fetched
/// prefix and the descriptor positions just shift.
proof fn lemma_assembly_error_shift(
    e: NovelError,
    pages0: Seq<Result<String, NovelError>>,
    inner_pages: Seq<Result<String, NovelError>>,
    infos0: Seq<ChapterInfo>,
    inner_infos: Seq<ChapterInfo>,
    consumed: int,
)
    requires
        0 <= consumed,
        consumed + inner_pages.len() == pages0.len(),
        inner_pages == pages0.subrange(consumed, pages0.len() as int),
        inner_infos.len() <= inner_pages.len(),
        consumed + inner_infos.len() <= infos0.len(),
        forall|i: int|
            0 <= i < inner_infos.len() ==> infos0[consumed + i] == #[trigger] inner_infos[i],
        assembly_error_ok(e, inner_pages, inner_infos),
        forall|j: int| 0 <= j < consumed ==> (#[trigger] pages0[j]) is Ok,
    ensures
        assembly_error_ok(e, pages0, infos0),
{
    if exists|i: int|
        {
            &&& 0 <= i < inner_infos.len()
            &&& (#[trigger] inner_pages[i]) matches Err(pe)
            &&& pe == e
            &&& forall|j: int| 0 <= j < i ==> (#[trigger] inner_pages[j]) is Ok
        } {
        let i = choose|i: int|
            {
                &&& 0 <= i < inner_infos.len()
                &&& (#[trigger] inner_pages[i]) matches Err(pe)
                &&& pe == e
                &&& forall|j: int| 0 <= j < i ==> (#[trigger] inner_pages[j]) is Ok
            };
        assert(pages0[consumed + i] == inner_pages[i]);
        assert forall|j: int| 0 <= j < consumed + i implies (#[trigger] pages0[j]) is Ok by {
            if j >= consumed {
                assert(inner_pages[j - consumed] is Ok);
            }
        }
        assert({
            &&& 0 <= consumed + i < infos0.len()
            &&& pages0[consumed + i] matches Err(pe)
            &&& pe == e
            &&& forall|j: int| 0 <= j < consumed + i ==> (#[trigger] pages0[j]) is Ok
        });
    } else {
        let i = choose|i: int|
            {
                &&& 0 <= i < inner_infos.len()
                &&& (#[trigger] inner_pages[i]) is Ok
                &&& e matches NovelError::InChapter(k, cause)
                &&& k == inner_infos[i].order_num
                &&& extraction_error(*cause)
                &&& forall|j: int| 0 <= j < i ==> (#[trigger] inner_pages[j]) is Ok
            };
        assert(pages0[consumed + i] == inner_pages[i]);
        assert(infos0[consumed + i] == inner_infos[i]);
        assert forall|j: int| 0 <= j < consumed + i implies (#[trigger] pages0[j]) is Ok by {
            if j >= consumed {
                assert(inner_pages[j - consumed] is Ok);
            }
        }
        assert({
            &&& 0 <= consumed + i < infos0.len()
            &&& pages0[consumed + i] is Ok
            &&& e matches NovelError::InChapter(k, cause)
            &&& k == infos0[consumed + i].order_num
            &&& extraction_error(*cause)
            &&& forall|j: int| 0 <= j < consumed + i ==> (#[trigger] pages0[j]) is Ok
        });
    }
}

/// The sources this crate recognizes.
#[derive(Clone, Copy, PartialEq, Eq, Structural, Debug)]
pub enum NovelSite {
    Kakuyomu,
    Syosetu,
}

/// How a source's chapter pages may be fetched: all at once, or strictly
/// one at a time where the source refuses bursty clients. The choice is
/// per source, stated here so policy and rationale stay auditable.
#[derive(Clone, Copy, PartialEq, Eq, Structural, Debug)]
pub enum FetchPolicy {
    Concurrent,
    Sequential,
}

impl NovelSite {
    /// Which source, if any, claims the address.
    pub fn is_a_novel(host: Option<&str>, path: &str) -> (r: Option<NovelSite>)
        ensures
            crate::novel::kakuyomu::spec_is_kakuyomu_novel(host, path) ==> r == Some(
                NovelSite::Kakuyomu,
            ),
            !crate::novel::kakuyomu::spec_is_kakuyomu_novel(host, path)
                && crate::novel::syosetu::spec_is_syosetu_novel(host) ==> r == Some(
                NovelSite::Syosetu,
            ),
            !crate::novel::kakuyomu::spec_is_kakuyomu_novel(host, path)
                && !crate::novel::syosetu::spec_is_syosetu_novel(host) ==> r is None,
    {
        if self::kakuyomu::is_kakuyomu_novel(host, path) {
            Some(NovelSite::Kakuyomu)
        } else if self::syosetu::is_syosetu_novel(host) {
            Some(NovelSite::Syosetu)
        } else {
            None
        }
    }

    /// This source's dispatch policy for chapter fetches.
    pub fn fetch_policy(&self) -> (r: FetchPolicy)
        ensures
            self is Kakuyomu ==> r == FetchPolicy::Concurrent,
            self is Syosetu ==> r == FetchPolicy::Sequential,
    {
        match self {
            NovelSite::Kakuyomu => FetchPolicy::Concurrent,
            NovelSite::Syosetu => FetchPolicy::Sequential,
        }
    }

    /// Scans a work's main page into a validated fetch plan. The plan is
    /// well-formed; where the source states the status on the main page it
    /// is already known, and where it lives on a separate information page
    /// the plan carries that page's link instead. A failure is one of the
    /// source's own scan errors: a selector of that scan that does not
    /// compile, or a missing component; a scan whose selectors do not all
    /// compile never succeeds.
    pub fn plan_novel(&self, html: &str) -> (r: NovelResult<NovelPlan>)
        ensures
            r matches Ok(p) ==> {
                &&& plan_wf(p)
                &&& (self is Kakuyomu ==> p.status is Some && p.info_path is None)
                &&& (self is Syosetu ==> p.status is None && p.info_path is Some)
            },
            r matches Err(e) ==> {
                &&& (self is Kakuyomu ==> crate::novel::kakuyomu::scan_error_ok(e))
                &&& (self is Syosetu ==> crate::novel::syosetu::scan_error_ok(e))
            },
            self is Kakuyomu && !crate::novel::kakuyomu::scan_selectors_compile() ==> r is Err,
            self is Syosetu && !crate::novel::syosetu::scan_selectors_compile() ==> r is Err,
    {
        match self {
            NovelSite::Kakuyomu => self::kakuyomu::plan_kakuyomu_novel(html),
            NovelSite::Syosetu => self::syosetu::plan_syosetu_novel(html),
        }
    }

    /// Assembles the finished work from its validated plan and the fetched
    /// chapter pages, one page per descriptor in order-number order. The
    /// result's order is the plan's order, never the order fetches
    /// completed in; the first failure, in that same order, is surfaced and
    /// no partial work is returned.
    pub fn make_novel(&self, source_url: &str, plan: NovelPlan, pages: Vec<
        Result<String, NovelError>,
    >) -> (r: NovelResult<Novel>)
        requires
            plan_wf(plan),
            plan.status is Some,
            pages@.len() == flat_infos(plan.contents).len(),
        ensures
            r matches Ok(n) ==> {
                &&& n.title == plan.title
                &&& n.author == plan.author
                &&& plan.status == Some(n.status)
                &&& n.source_url@ == source_url@
                &&& contents_match(plan.contents, n.contents)
                &&& work_wf(n)
            },
            r matches Err(e) ==> assembly_error_ok(e, pages@, flat_infos(plan.contents)),
    {
        let NovelPlan { title, author, status, info_path: _, contents } = plan;
        let status = match status {
            Some(s) => s,
            None => unreached(),
        };
        let mut pages = pages;
        let contents = match contents {
            PlanContents::Chapters(infos) => {
                let chapters = match assemble_chapter_list(self, infos, &mut pages) {
                    Ok(chs) => chs,
                    Err(e) => return Err(e),
                };
                NovelContents::Chapters(chapters)
            },
            PlanContents::Sections(sections) => {
                let built = match assemble_section_list(self, sections, &mut pages) {
                    Ok(ns) => ns,
                    Err(e) => return Err(e),
                };
                NovelContents::Sections(built)
            },
        };
        proof {
            lemma_assembled_wf(plan.contents, contents);
        }
        Ok(Novel { title, author, status, source_url: String::from_str(source_url), contents })
    }
}

/// The plan's body splits around any section boundary.
proof fn lemma_flat_plan_cat(ss: Seq<SectionInfo>, j: int)
    requires
        0 <= j <= ss.len(),
    ensures
        flat_plan(ss) == flat_plan(ss.subrange(0, j)) + flat_plan(ss.subrange(j, ss.len() as int)),
    decreases ss.len() - j,
{
    if j == ss.len() {
        assert(ss.subrange(0, j) =~= ss);
        assert(flat_plan(ss.subrange(j, ss.len() as int)) =~= Seq::<ChapterInfo>::empty());
        assert(flat_plan(ss) =~= flat_plan(ss.subrange(0, j)) + flat_plan(
            ss.subrange(j, ss.len() as int),
        ));
    } else {
        lemma_flat_plan_cat(ss, j + 1);
        assert(ss.subrange(0, j + 1).drop_last() =~= ss.subrange(0, j));
        assert(ss.subrange(0, j + 1).last() == ss[j]);
        let tail = ss.subrange(j, ss.len() as int);
        lemma_flat_plan_front(tail);
        assert(tail[0] == ss[j]);
        assert(tail.subrange(1, tail.len() as int) =~= ss.subrange(j + 1, ss.len() as int));
        assert(flat_plan(ss.subrange(0, j)) + flat_plan(ss.subrange(j, ss.len() as int))
            =~= flat_plan(ss.subrange(0, j + 1)) + flat_plan(ss.subrange(j + 1, ss.len() as int)));
    }
}

impl NovelPlan {
    /// Checks the plan's body invariant at run time: never empty, no empty
    /// section, and the descriptors numbered 1, 2, 3, ... across the whole
    /// body. A caller outside the verified world can test this before
    /// handing the plan to the assembler.
    #[verifier::loop_isolation(false)]
    pub fn is_wf(&self) -> (r: bool)
        ensures
            r == plan_wf(*self),
    {
        match &self.contents {
            PlanContents::Chapters(chs) => {
                if chs.len() == 0 {
                    return false;
                }
                let mut i: usize = 0;
                while i < chs.len()
                    invariant
                        i <= chs@.len(),
                        forall|k: int|
                            0 <= k < i ==> (#[trigger] chs@[k]).order_num as int == k + 1,
                    decreases chs@.len() - i,
                {
                    if chs[i].order_num != i + 1 {
                        proof {
                            assert(flat_infos(self.contents) == chs@);
                            assert(chs@[i as int].order_num as int != i as int + 1);
                            assert(!numbered_from_one(chs@));
                        }
                        return false;
                    }
                    i += 1;
                }
                true
            },
            PlanContents::Sections(ss) => {
                if ss.len() == 0 {
                    return false;
                }
                let mut count: usize = 0;
                let mut j: usize = 0;
                proof {
                    assert(flat_plan(ss@.subrange(0, 0)) =~= Seq::<ChapterInfo>::empty());
                }
                while j < ss.len()
                    invariant
                        j <= ss@.len(),
                        count == flat_plan(ss@.subrange(0, j as int)).len(),
                        forall|k: int|
                            0 <= k < count ==> (#[trigger] flat_plan(
                                ss@.subrange(0, j as int),
                            )[k]).order_num as int == k + 1,
                        forall|k: int|
                            0 <= k < j ==> (#[trigger] ss@[k]).chapters@.len() >= 1,
                    decreases ss@.len() - j,
                {
                    let ghost before = ss@.subrange(0, j as int);
                    let section = &ss[j];
                    if section.chapters.len() == 0 {
                        proof {
                            assert(ss@[j as int].chapters@.len() == 0);
                        }
                        return false;
                    }
                    proof {
                        lemma_flat_plan_cat(ss@, j as int);
                        lemma_flat_plan_front(ss@.subrange(j as int, ss@.len() as int));
                        assert(ss@.subrange(j as int, ss@.len() as int)[0] == ss@[j as int]);
                        assert(ss@.subrange(j as int, ss@.len() as int).subrange(
                            1,
                            ss@.len() as int - j,
                        ) =~= ss@.subrange(j as int + 1, ss@.len() as int));
                    }
                    let mut i: usize = 0;
                    while i < section.chapters.len()
                        invariant
                            i <= section.chapters@.len(),
                            section == &ss@[j as int],
                            j < ss@.len(),
                            count == flat_plan(ss@.subrange(0, j as int)).len() + i,
                            count <= usize::MAX,
                            flat_plan(ss@) == flat_plan(ss@.subrange(0, j as int)) + (
                            ss@[j as int].chapters@ + flat_plan(
                                ss@.subrange(j as int + 1, ss@.len() as int),
                            )),
                            forall|k: int|
                                0 <= k < flat_plan(ss@.subrange(0, j as int)).len() ==> (
                                #[trigger] flat_plan(ss@.subrange(0, j as int))[k]).order_num
                                    as int == k + 1,
                            forall|k: int|
                                0 <= k < i ==> (#[trigger] ss@[j as int].chapters@[k]).order_num
                                    as int == flat_plan(ss@.subrange(0, j as int)).len() + k + 1,
                        decreases section.chapters@.len() - i,
                    {
                        proof {
                            assert(count < flat_plan(ss@).len());
                            assert(flat_plan(ss@)[count as int] == (ss@[j as int].chapters@
                                + flat_plan(ss@.subrange(j as int + 1, ss@.len() as int)))[
                                i as int]);
                            assert(flat_plan(ss@)[count as int] == ss@[j as int].chapters@[
                                i as int]);
                        }
                        if count == usize::MAX {
                            // The next descriptor would need an order number
                            // beyond the machine's range, which no usize
                            // carries.
                            proof {
                                assert(flat_plan(ss@)[count as int].order_num as int != count as int
                                    + 1);
                                assert(!numbered_from_one(flat_plan(ss@)));
                            }
                            return false;
                        }
                        if section.chapters[i].order_num != count + 1 {
                            proof {
                                assert(flat_plan(ss@)[count as int].order_num as int != count as int
                                    + 1);
                                assert(!numbered_from_one(flat_plan(ss@)));
                            }
                            return false;
                        }
                        count += 1;
                        i += 1;
                    }
                    proof {
                        assert(ss@.subrange(0, j as int + 1).drop_last() =~= before);
                        assert(ss@.subrange(0, j as int + 1).last() == ss@[j as int]);
                        assert(flat_plan(ss@.subrange(0, j as int + 1)) == flat_plan(before) + ss@[
                            j as int].chapters@);
                        assert forall|k: int|
                            0 <= k < flat_plan(ss@.subrange(0, j as int + 1)).len() implies (
                        #[trigger] flat_plan(ss@.subrange(0, j as int + 1))[k]).order_num as int == k
                            + 1 by {
                            if k < flat_plan(before).len() {
                                assert(flat_plan(ss@.subrange(0, j as int + 1))[k] == flat_plan(
                                    before,
                                )[k]);
                            } else {
                                assert(flat_plan(ss@.subrange(0, j as int + 1))[k] == ss@[
                                    j as int].chapters@[k - flat_plan(before).len()]);
                            }
                        }
                    }
                    j += 1;
                }
                proof {
                    assert(ss@.subrange(0, ss@.len() as int) =~= ss@);
                }
                true
            },
        }
    }
}

/// The section that owns the descriptor at a flat position: positions walk
/// the sections in order, each section owning as many positions as it has
/// chapters.
pub open spec fn section_of_flat(ss: Seq<SectionInfo>, i: int) -> int
    decreases ss.len(),
{
    if ss.len() == 0 {
        0
    } else if i < ss[0].chapters@.len() {
        0
    } else {
        1 + section_of_flat(ss.subrange(1, ss.len() as int), i - ss[0].chapters@.len())
    }
}

/// The flat position of a section's `t`-th chapter belongs to that section.
proof fn lemma_section_of_flat_at(ss: Seq<SectionInfo>, j: int, t: int)
    requires
        0 <= j < ss.len(),
        0 <= t < ss[j].chapters@.len(),
    ensures
        section_of_flat(ss, flat_plan(ss.subrange(0, j)).len() + t) == j,
    decreases j,
{
    if j == 0 {
        assert(ss.subrange(0, 0) =~= Seq::<SectionInfo>::empty());
    } else {
        let tail = ss.subrange(1, ss.len() as int);
        assert(tail[j - 1] == ss[j]);
        lemma_section_of_flat_at(tail, j - 1, t);
        lemma_flat_plan_front(ss.subrange(0, j));
        assert(ss.subrange(0, j)[0] == ss[0]);
        assert(ss.subrange(0, j).subrange(1, j) =~= tail.subrange(0, j - 1));
        assert(flat_plan(ss.subrange(0, j)).len() == ss[0].chapters@.len() + flat_plan(
            tail.subrange(0, j - 1),
        ).len());
    }
}

/// One page still to be fetched: its source-relative path, the order
/// number its chapter will carry, and its section's index, if it has one.
/// It exists only between the scan of the table of contents and the
/// completion of its chapter.
#[derive(Debug, Clone, PartialEq)]
pub struct FetchDescriptor {
    pub path: String,
    pub order_num: usize,
    pub section_index: Option<usize>,
}

impl NovelPlan {
    /// The descriptors of every page the plan still needs, in order-number
    /// order: one per chapter, each carrying its chapter's path, order
    /// number and owning section's index — no section index for a flat
    /// chapter list.
    pub fn descriptors(&self) -> (r: Vec<FetchDescriptor>)
        ensures
            r@.len() == flat_infos(self.contents).len(),
            forall|i: int|
                0 <= i < r@.len() ==> (#[trigger] r@[i]).path == flat_infos(self.contents)[i].path
                    && r@[i].order_num == flat_infos(self.contents)[i].order_num,
            self.contents matches PlanContents::Chapters(chs) ==> (forall|i: int|
                0 <= i < r@.len() ==> (#[trigger] r@[i]).section_index is None),
            self.contents matches PlanContents::Sections(ss) ==> (forall|i: int|
                0 <= i < r@.len() ==> (#[trigger] r@[i]).section_index == Some(
                    section_of_flat(ss@, i) as usize,
                )),
    {
        let mut out: Vec<FetchDescriptor> = Vec::new();
        match &self.contents {
            PlanContents::Chapters(chs) => {
                let mut i: usize = 0;
                while i < chs.len()
                    invariant
                        i <= chs@.len(),
                        out@.len() == i,
                        forall|k: int|
                            0 <= k < i ==> (#[trigger] out@[k]).path == chs@[k].path
                                && out@[k].order_num == chs@[k].order_num
                                && out@[k].section_index is None,
                    decreases chs@.len() - i,
                {
                    out.push(
                        FetchDescriptor {
                            path: chs[i].path.clone(),
                            order_num: chs[i].order_num,
                            section_index: None,
                        },
                    );
                    i += 1;
                }
            },
            PlanContents::Sections(ss) => {
                let mut j: usize = 0;
                proof {
                    assert(flat_plan(ss@.subrange(0, 0)) =~= Seq::<ChapterInfo>::empty());
                }
                while j < ss.len()
                    invariant
                        j <= ss@.len(),
                        out@.len() == flat_plan(ss@.subrange(0, j as int)).len(),
                        forall|k: int|
                            0 <= k < out@.len() ==> (#[trigger] out@[k]).path == flat_plan(
                                ss@.subrange(0, j as int),
                            )[k].path && out@[k].order_num == flat_plan(
                                ss@.subrange(0, j as int),
                            )[k].order_num,
                        forall|k: int|
                            0 <= k < out@.len() ==> (#[trigger] out@[k]).section_index == Some(
                                section_of_flat(ss@, k) as usize,
                            ),
                    decreases ss@.len() - j,
                {
                    let section = &ss[j];
                    let ghost before = ss@.subrange(0, j as int);
                    let mut i: usize = 0;
                    while i < section.chapters.len()
                        invariant
                            i <= section.chapters@.len(),
                            section == &ss@[j as int],
                            j < ss@.len(),
                            out@.len() == flat_plan(before).len() + i,
                            forall|k: int|
                                0 <= k < flat_plan(before).len() ==> (#[trigger] out@[k]).path
                                    == flat_plan(before)[k].path && out@[k].order_num == flat_plan(
                                    before,
                                )[k].order_num,
                            forall|k: int|
                                0 <= k < flat_plan(before).len() ==> (
                                #[trigger] out@[k]).section_index == Some(
                                    section_of_flat(ss@, k) as usize,
                                ),
                            forall|k: int|
                                0 <= k < i ==> (#[trigger] out@[flat_plan(before).len() + k]).path
                                    == section.chapters@[k].path && out@[flat_plan(
                                    before,
                                ).len() + k].order_num == section.chapters@[k].order_num && out@[
                                flat_plan(before).len() + k].section_index == Some(j),
                        decreases section.chapters@.len() - i,
                    {
                        out.push(
                            FetchDescriptor {
                                path: section.chapters[i].path.clone(),
                                order_num: section.chapters[i].order_num,
                                section_index: Some(j),
                            },
                        );
                        i += 1;
                    }
                    proof {
                        assert(ss@.subrange(0, j as int + 1).drop_last() =~= before);
                        assert(ss@.subrange(0, j as int + 1).last() == ss@[j as int]);
                        assert(flat_plan(ss@.subrange(0, j as int + 1)) == flat_plan(before)
                            + ss@[j as int].chapters@);
                        assert forall|k: int| 0 <= k < out@.len() implies (
                        #[trigger] out@[k]).section_index == Some(
                            section_of_flat(ss@, k) as usize,
                        ) by {
                            if k >= flat_plan(before).len() {
                                lemma_section_of_flat_at(ss@, j as int, k - flat_plan(
                                    before,
                                ).len());
                            }
                        }
                        assert forall|k: int| 0 <= k < out@.len() implies (#[trigger] out@[k]).path
                            == flat_plan(ss@.subrange(0, j as int + 1))[k].path
                            && out@[k].order_num == flat_plan(
                            ss@.subrange(0, j as int + 1),
                        )[k].order_num by {
                            if k < flat_plan(before).len() {
                                assert(flat_plan(ss@.subrange(0, j as int + 1))[k] == flat_plan(
                                    before,
                                )[k]);
                            } else {
                                assert(flat_plan(ss@.subrange(0, j as int + 1))[k] == ss@[
                                    j as int].chapters@[k - flat_plan(before).len()]);
                                assert(out@[k] == out@[flat_plan(before).len() + (k - flat_plan(
                                    before,
                                ).len())]);
                            }
                        }
                    }
                    j += 1;
                }
                proof {
                    assert(ss@.subrange(0, ss@.len() as int) =~= ss@);
                }
            },
        }
        out
    }
}

} // verus!
