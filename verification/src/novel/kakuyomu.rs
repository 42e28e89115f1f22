//! Adapter for the kakuyomu source: how that site's table-of-contents page
//! maps onto the canonical model. The status stands on the main page
//! itself, under an exact two-word vocabulary; chapter pages may be
//! fetched concurrently.

use vstd::prelude::*;
use vstd::string::StringExecFns;

use crate::dom;
use crate::novel::novel_utils;
use crate::novel::novel_utils::{spec_starts_with, str_starts_with};
use crate::novel::toc::{self, ChapterEntry, MainPageData, TocEvent};
use crate::novel::{
    contents_spec, flat_infos, plan_wf, Novel, NovelPlan, NovelStatus,
};
use crate::traverser::TreeTraverser;
use crate::{NovelComponent, NovelError, NovelResult};

pub mod content;

verus! {

/// Whether an address belongs to this source: the host must be exactly the
/// source's own and the path must lead to a work.
pub open spec fn spec_is_kakuyomu_novel(host: Option<&str>, path: &str) -> bool {
    host matches Some(h) && h@ == "kakuyomu.jp"@ && spec_starts_with(path@, "/works/"@)
}

/// Recognizes this source's work addresses.
pub fn is_kakuyomu_novel(host: Option<&str>, path: &str) -> (r: bool)
    ensures
        r == spec_is_kakuyomu_novel(host, path),
{
    match host {
        Some(h) => {
            if String::from_str(h) == String::from_str("kakuyomu.jp") {
                str_starts_with(path, "/works/")
            } else {
                false
            }
        },
        None => false,
    }
}

/// The absolute address of a source-relative path on this source's host.
pub fn make_uri(path: &str) -> (r: String)
    ensures
        r@ == "https://kakuyomu.jp"@ + path@,
{
    let mut r = String::from_str("https://kakuyomu.jp");
    r.append(path);
    r
}

/// This source's exact status vocabulary; any other text is not a status
/// and never a silent default.
pub fn kakuyomu_status_of(text: &String) -> (r: Option<NovelStatus>)
    ensures
        text@ == "連載中"@ ==> r == Some(NovelStatus::Running),
        text@ == "完結済"@ ==> r == Some(NovelStatus::Finished),
        text@ != "連載中"@ && text@ != "完結済"@ ==> r is None,
{
    proof {
        reveal_strlit("連載中");
        reveal_strlit("完結済");
        assert("連載中"@[0] != "完結済"@[0]);
    }
    if *text == String::from_str("連載中") {
        Some(NovelStatus::Running)
    } else if *text == String::from_str("完結済") {
        Some(NovelStatus::Finished)
    } else {
        None
    }
}

/// The selector texts this adapter's main-page scan registers.
pub open spec fn scan_selector(s: Seq<char>) -> bool {
    ||| s == "#workTitle > a"@
    ||| s == "#workAuthor-activityName > a"@
    ||| s == "div#workInformationList > dl > dd:nth-child(2)"@
    ||| s == "li.widget-toc-chapter > span"@
    ||| s == "li.widget-toc-episode > a"@
}

/// Whether every selector of this adapter's main-page scan compiles.
pub open spec fn scan_selectors_compile() -> bool {
    &&& dom::selector_compiles("#workTitle > a"@)
    &&& dom::selector_compiles("#workAuthor-activityName > a"@)
    &&& dom::selector_compiles("div#workInformationList > dl > dd:nth-child(2)"@)
    &&& dom::selector_compiles("li.widget-toc-chapter > span"@)
    &&& dom::selector_compiles("li.widget-toc-episode > a"@)
}

/// What a failed main-page scan can report: one of the scan's own selector
/// texts that does not compile, or a missing component of the model.
pub open spec fn scan_error_ok(e: NovelError) -> bool {
    ||| ({
        &&& e matches NovelError::TraverseError(te)
        &&& te matches crate::traverser::TraverseError::CssSelectorCompilation(sel)
        &&& !dom::selector_compiles(sel@)
        &&& scan_selector(sel@)
    })
    ||| (e matches NovelError::ComponentMissing(c) && (c is Title || c is Author || c is Status
        || c is Chapter || c is ChapterUnderSection || c is Date))
}

/// The five hooks of a main-page scan.
#[derive(Clone, Copy)]
enum MainPageHook {
    Title,
    Author,
    Status,
    Section,
    Chapter,
}

/// Reads the main page's firings into scan events, in page order. A
/// chapter row must carry its name label, its date and its page link; a
/// status element outside the vocabulary reports nothing.
fn collect_toc_events(node: kuchiki::NodeRef) -> (r: NovelResult<Vec<TocEvent>>)
    ensures
        r matches Err(e) ==> scan_error_ok(e),
        !scan_selectors_compile() ==> r is Err,
{
    let traverser: TreeTraverser<MainPageHook> = TreeTraverser::new(node);
    let traverser = match traverser.add_hook("#workTitle > a", None, MainPageHook::Title) {
        Ok(t) => t,
        Err(e) => return Err(NovelError::TraverseError(e)),
    };
    let traverser = match traverser.add_hook(
        "#workAuthor-activityName > a",
        None,
        MainPageHook::Author,
    ) {
        Ok(t) => t,
        Err(e) => return Err(NovelError::TraverseError(e)),
    };
    let traverser = match traverser.add_hook(
        "div#workInformationList > dl > dd:nth-child(2)",
        None,
        MainPageHook::Status,
    ) {
        Ok(t) => t,
        Err(e) => return Err(NovelError::TraverseError(e)),
    };
    let traverser = match traverser.add_hook(
        "li.widget-toc-chapter > span",
        None,
        MainPageHook::Section,
    ) {
        Ok(t) => t,
        Err(e) => return Err(NovelError::TraverseError(e)),
    };
    let traverser = match traverser.add_hook(
        "li.widget-toc-episode > a",
        None,
        MainPageHook::Chapter,
    ) {
        Ok(t) => t,
        Err(e) => return Err(NovelError::TraverseError(e)),
    };
    let firings = traverser.traverse();
    let mut events: Vec<TocEvent> = Vec::new();
    let mut i: usize = 0;
    while i < firings.len()
        decreases firings@.len() - i,
    {
        let (tag, element) = &firings[i];
        match tag {
            MainPageHook::Title => {
                events.push(TocEvent::Title(dom::element_text(element)));
            },
            MainPageHook::Author => {
                events.push(TocEvent::Author(dom::element_text(element)));
            },
            MainPageHook::Status => {
                let text = dom::element_text(element);
                match kakuyomu_status_of(&text) {
                    Some(status) => events.push(TocEvent::Status(status)),
                    None => {},
                }
            },
            MainPageHook::Section => {
                events.push(TocEvent::Section(dom::element_text(element)));
            },
            MainPageHook::Chapter => {
                let chapter_node = dom::as_node(element);
                let name_el = match dom::select_first_in(
                    &chapter_node,
                    "span.widget-toc-episode-titleLabel",
                ) {
                    Some(el) => el,
                    None => return Err(NovelError::ComponentMissing(NovelComponent::Chapter)),
                };
                let date_el = match dom::select_first_in(
                    &chapter_node,
                    "time.widget-toc-episode-datePublished",
                ) {
                    Some(el) => el,
                    None => return Err(NovelError::ComponentMissing(NovelComponent::Date)),
                };
                let path = match dom::element_attr(element, "href") {
                    Some(p) => p,
                    None => return Err(NovelError::ComponentMissing(NovelComponent::Chapter)),
                };
                let date_text = dom::element_text(&date_el);
                let date = novel_utils::convert_num_string_to_ja(date_text.as_str());
                let name = dom::element_text(&name_el);
                events.push(TocEvent::Chapter(ChapterEntry { name, date, path }));
            },
        }
        i += 1;
    }
    Ok(events)
}

/// The exact outcome of validating this source's main-page scan: title,
/// author and status must all be present, reported in that order, then the
/// body is validated.
pub open spec fn kakuyomu_plan_spec(d: MainPageData) -> Result<NovelPlan, NovelError> {
    if d.title is None {
        Err(NovelError::ComponentMissing(NovelComponent::Title))
    } else if d.author is None {
        Err(NovelError::ComponentMissing(NovelComponent::Author))
    } else if d.status is None {
        Err(NovelError::ComponentMissing(NovelComponent::Status))
    } else {
        match contents_spec(d.sections, d.chapters) {
            Err(e) => Err(e),
            Ok(c) => Ok(
                NovelPlan {
                    title: d.title->0,
                    author: d.author->0,
                    status: d.status,
                    info_path: None,
                    contents: c,
                },
            ),
        }
    }
}

/// Validates a finished scan into a plan, exactly as `kakuyomu_plan_spec`
/// says.
pub fn kakuyomu_plan_of(d: MainPageData) -> (r: NovelResult<NovelPlan>)
    ensures
        r == kakuyomu_plan_spec(d),
{
    let MainPageData { title, author, status, info_path: _, sections, chapters, chapter_count: _ } =
        d;
    let title = match title {
        Some(t) => t,
        None => return Err(NovelError::ComponentMissing(NovelComponent::Title)),
    };
    let author = match author {
        Some(a) => a,
        None => return Err(NovelError::ComponentMissing(NovelComponent::Author)),
    };
    if status.is_none() {
        return Err(NovelError::ComponentMissing(NovelComponent::Status));
    }
    let contents = match crate::novel::contents_of(sections, chapters) {
        Ok(c) => c,
        Err(e) => return Err(e),
    };
    Ok(NovelPlan { title, author, status, info_path: None, contents })
}

/// Scans a work's main page into a validated fetch plan: the hooks fire in
/// page order, the accumulator folds them, the pending chapters are
/// flushed, and the result is validated. A failure is one of this scan's
/// own errors: a selector text of the scan that does not compile, or a
/// missing component; a scan whose selectors do not all compile never
/// succeeds. A plan that comes out is well-formed: its descriptors are numbered 1, 2, 3, ... across the whole
/// body, no section is empty, and the status is already known.
pub fn plan_kakuyomu_novel(html: &str) -> (r: NovelResult<NovelPlan>)
    ensures
        r matches Ok(p) ==> plan_wf(p) && p.status is Some && p.info_path is None,
        r matches Err(e) ==> scan_error_ok(e),
        !scan_selectors_compile() ==> r is Err,
{
    let node = dom::parse_html(html);
    let events = match collect_toc_events(node) {
        Ok(events) => events,
        Err(e) => return Err(e),
    };
    let total = events.len();
    let ghost evs = events@;
    let mut data = toc::process_toc_events(events);
    data.move_chapters_to_section();
    proof {
        crate::novel::lemma_scan_plan_wf(evs, data, total as int);
    }
    kakuyomu_plan_of(data)
}

/// Assembles the finished work for this source from its plan and the
/// fetched chapter pages, in order-number order.
pub fn make_kakuyomu_novel(source_url: &str, plan: NovelPlan, pages: Vec<
    Result<String, NovelError>,
>) -> (r: NovelResult<Novel>)
    requires
        plan_wf(plan),
        plan.status is Some,
        pages@.len() == flat_infos(plan.contents).len(),
    ensures
        r matches Ok(n) ==> {
            &&& n.title == plan.title
            &&& n.author == plan.author
            &&& plan.status == Some(n.status)
            &&& n.source_url@ == source_url@
            &&& crate::novel::contents_match(plan.contents, n.contents)
            &&& crate::novel::work_wf(n)
        },
        r matches Err(e) ==> crate::novel::assembly_error_ok(e, pages@, flat_infos(plan.contents)),
{
    let site = crate::novel::NovelSite::Kakuyomu;
    site.make_novel(source_url, plan, pages)
}

} // verus!
