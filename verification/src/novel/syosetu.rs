//! Adapter for the syosetu source: how that site's table-of-contents page
//! maps onto the canonical model. The status lives on a separate
//! information page reached through a link on the main page; chapter pages
//! are fetched one at a time, since the source refuses bursty clients.

use vstd::prelude::*;
use vstd::string::StringExecFns;

use crate::dom;
use crate::dom::NodeKind;
use crate::novel::novel_utils::{spec_starts_with, str_starts_with};
use crate::novel::toc::{self, ChapterEntry, MainPageData, TocEvent};
use crate::novel::{contents_spec, flat_infos, plan_wf, Novel, NovelPlan};
use crate::traverser::TreeTraverser;
use crate::{NovelComponent, NovelError, NovelResult};

pub mod content;
pub mod info_page;

verus! {

/// Whether an address belongs to this source: the host alone decides.
pub open spec fn spec_is_syosetu_novel(host: Option<&str>) -> bool {
    host matches Some(h) && h@ == "ncode.syosetu.com"@
}

/// Recognizes this source's work addresses.
pub fn is_syosetu_novel(host: Option<&str>) -> (r: bool)
    ensures
        r == spec_is_syosetu_novel(host),
{
    match host {
        Some(h) => String::from_str(h) == String::from_str("ncode.syosetu.com"),
        None => false,
    }
}

/// The absolute address of a path on this source's host; a path that is
/// already absolute stands as it is.
pub fn make_uri(path: &str) -> (r: String)
    ensures
        spec_starts_with(path@, "http"@) ==> r@ == path@,
        !spec_starts_with(path@, "http"@) ==> r@ == "https://ncode.syosetu.com"@ + path@,
{
    if str_starts_with(path, "http") {
        String::from_str(path)
    } else {
        let mut r = String::from_str("https://ncode.syosetu.com");
        r.append(path);
        r
    }
}

/// The information-page rule: only the navigation entry whose text names
/// the information page, and which carries a link, reports that link; any
/// other entry reports nothing.
pub fn info_link_of(text: &String, href: Option<String>) -> (r: Option<String>)
    ensures
        text@ == "小説情報"@ && href is Some ==> r == href,
        !(text@ == "小説情報"@ && href is Some) ==> r is None,
{
    if *text == String::from_str("小説情報") {
        href
    } else {
        None
    }
}

/// The display date of a chapter row: the upload date alone or, when a
/// later edit is marked, with the edit date joined in brackets.
pub fn compose_date(uploaded: String, edit_date: Option<String>) -> (r: String)
    ensures
        edit_date matches Some(e) ==> r@ == uploaded@ + "（"@ + e@ + "）"@,
        edit_date is None ==> r == uploaded,
{
    match edit_date {
        Some(e) => {
            let mut r = uploaded;
            r.append("（");
            r.append(e.as_str());
            r.append("）");
            r
        },
        None => uploaded,
    }
}

/// The selector texts this adapter's main-page scan registers.
pub open spec fn scan_selector(s: Seq<char>) -> bool {
    ||| s == ".novel_title"@
    ||| s == "div.novel_writername > a"@
    ||| s == "#head_nav > li:nth-child(2) > a"@
    ||| s == ".chapter_title"@
    ||| s == ".novel_sublist2"@
}

/// Whether every selector of this adapter's main-page scan compiles.
pub open spec fn scan_selectors_compile() -> bool {
    &&& dom::selector_compiles(".novel_title"@)
    &&& dom::selector_compiles("div.novel_writername > a"@)
    &&& dom::selector_compiles("#head_nav > li:nth-child(2) > a"@)
    &&& dom::selector_compiles(".chapter_title"@)
    &&& dom::selector_compiles(".novel_sublist2"@)
}

/// What a failed main-page scan can report: one of the scan's own selector
/// texts that does not compile, or a missing component of the model.
pub open spec fn scan_error_ok(e: NovelError) -> bool {
    ||| ({
        &&& e matches NovelError::TraverseError(te)
        &&& te matches crate::traverser::TraverseError::CssSelectorCompilation(sel)
        &&& !dom::selector_compiles(sel@)
        &&& scan_selector(sel@)
    })
    ||| (e matches NovelError::ComponentMissing(c) && (c is Title || c is Author || c is InfoPath
        || c is Chapter || c is ChapterUnderSection || c is Date))
}

/// The five hooks of a main-page scan.
#[derive(Clone, Copy)]
enum MainPageHook {
    Title,
    Author,
    InfoLink,
    Section,
    Chapter,
}

/// Reads the main page's firings into scan events, in page order. The
/// information-page link is only taken from the navigation entry whose
/// text names it. A chapter row must carry its name link and its date; a
/// later edit, when marked, joins the date in brackets.
fn collect_toc_events(node: kuchiki::NodeRef) -> (r: NovelResult<Vec<TocEvent>>)
    ensures
        r matches Err(e) ==> scan_error_ok(e),
        !scan_selectors_compile() ==> r is Err,
{
    let traverser: TreeTraverser<MainPageHook> = TreeTraverser::new(node);
    let traverser = match traverser.add_hook(".novel_title", None, MainPageHook::Title) {
        Ok(t) => t,
        Err(e) => return Err(NovelError::TraverseError(e)),
    };
    let traverser = match traverser.add_hook(
        "div.novel_writername > a",
        None,
        MainPageHook::Author,
    ) {
        Ok(t) => t,
        Err(e) => return Err(NovelError::TraverseError(e)),
    };
    let traverser = match traverser.add_hook(
        "#head_nav > li:nth-child(2) > a",
        None,
        MainPageHook::InfoLink,
    ) {
        Ok(t) => t,
        Err(e) => return Err(NovelError::TraverseError(e)),
    };
    let traverser = match traverser.add_hook(".chapter_title", None, MainPageHook::Section) {
        Ok(t) => t,
        Err(e) => return Err(NovelError::TraverseError(e)),
    };
    let traverser = match traverser.add_hook(".novel_sublist2", None, MainPageHook::Chapter) {
        Ok(t) => t,
        Err(e) => return Err(NovelError::TraverseError(e)),
    };
    let firings = traverser.traverse();
    let mut events: Vec<TocEvent> = Vec::new();
    let mut i: usize = 0;
    while i < firings.len()
        decreases firings@.len() - i,
    {
        let (tag, element) = &firings[i];
        match tag {
            MainPageHook::Title => {
                events.push(TocEvent::Title(dom::element_text(element)));
            },
            MainPageHook::Author => {
                events.push(TocEvent::Author(dom::element_text(element)));
            },
            MainPageHook::InfoLink => {
                let text = dom::element_text(element);
                let href = dom::element_attr(element, "href");
                match info_link_of(&text, href) {
                    Some(path) => events.push(TocEvent::InfoLink(path)),
                    None => {},
                }
            },
            MainPageHook::Section => {
                events.push(TocEvent::Section(dom::element_text(element)));
            },
            MainPageHook::Chapter => {
                let row_node = dom::as_node(element);
                let name_el = match dom::select_first_in(&row_node, ".subtitle > a") {
                    Some(el) => el,
                    None => return Err(NovelError::ComponentMissing(NovelComponent::Chapter)),
                };
                let date_el = match dom::select_first_in(&row_node, ".long_update") {
                    Some(el) => el,
                    None => return Err(NovelError::ComponentMissing(NovelComponent::Date)),
                };
                let date = match read_date(&date_el) {
                    Ok(date) => date,
                    Err(e) => return Err(e),
                };
                let path = match dom::element_attr(&name_el, "href") {
                    Some(p) => p,
                    None => return Err(NovelError::ComponentMissing(NovelComponent::Chapter)),
                };
                let name = dom::element_text(&name_el);
                events.push(TocEvent::Chapter(ChapterEntry { name, date, path }));
            },
        }
        i += 1;
    }
    Ok(events)
}

/// Reads a chapter row's date: the element's first child is the upload
/// date's own text; a second child, when present, marks a later edit and
/// carries the edit date in its title attribute, which joins the upload
/// date in brackets.
fn read_date(date_el: &dom::Element) -> (r: NovelResult<String>)
    ensures
        r matches Err(e) ==> e == NovelError::ComponentMissing(NovelComponent::Date),
{
    let date_node = dom::as_node(date_el);
    let children = dom::child_nodes(&date_node);
    if children.len() == 0 {
        return Err(NovelError::ComponentMissing(NovelComponent::Date));
    }
    let uploaded = match dom::node_kind(&children[0]) {
        NodeKind::Text(text) => text,
        _ => return Err(NovelError::ComponentMissing(NovelComponent::Date)),
    };
    if children.len() >= 2 {
        let edited_el = match dom::node_as_element(&children[1]) {
            Some(el) => el,
            None => return Err(NovelError::ComponentMissing(NovelComponent::Date)),
        };
        let edit_date = match dom::element_attr(&edited_el, "title") {
            Some(t) => t,
            None => return Err(NovelError::ComponentMissing(NovelComponent::Date)),
        };
        Ok(compose_date(uploaded, Some(edit_date)))
    } else {
        Ok(compose_date(uploaded, None))
    }
}

/// The exact outcome of validating this source's main-page scan: title,
/// author and the information-page link must all be present, reported in
/// that order, then the body is validated. The status stays open until the
/// information page is read.
pub open spec fn syosetu_plan_spec(d: MainPageData) -> Result<NovelPlan, NovelError> {
    if d.title is None {
        Err(NovelError::ComponentMissing(NovelComponent::Title))
    } else if d.author is None {
        Err(NovelError::ComponentMissing(NovelComponent::Author))
    } else if d.info_path is None {
        Err(NovelError::ComponentMissing(NovelComponent::InfoPath))
    } else {
        match contents_spec(d.sections, d.chapters) {
            Err(e) => Err(e),
            Ok(c) => Ok(
                NovelPlan {
                    title: d.title->0,
                    author: d.author->0,
                    status: None,
                    info_path: d.info_path,
                    contents: c,
                },
            ),
        }
    }
}

/// Validates a finished scan into a plan, exactly as `syosetu_plan_spec`
/// says.
pub fn syosetu_plan_of(d: MainPageData) -> (r: NovelResult<NovelPlan>)
    ensures
        r == syosetu_plan_spec(d),
{
    let MainPageData { title, author, status: _, info_path, sections, chapters, chapter_count: _ } =
        d;
    let title = match title {
        Some(t) => t,
        None => return Err(NovelError::ComponentMissing(NovelComponent::Title)),
    };
    let author = match author {
        Some(a) => a,
        None => return Err(NovelError::ComponentMissing(NovelComponent::Author)),
    };
    if info_path.is_none() {
        return Err(NovelError::ComponentMissing(NovelComponent::InfoPath));
    }
    let contents = match crate::novel::contents_of(sections, chapters) {
        Ok(c) => c,
        Err(e) => return Err(e),
    };
    Ok(NovelPlan { title, author, status: None, info_path, contents })
}

/// Scans a work's main page into a validated fetch plan: the hooks fire in
/// page order, the accumulator folds them, the pending chapters are
/// flushed, and the result is validated. A failure is one of this scan's
/// own errors: a selector text of the scan that does not compile, or a
/// missing component; a scan whose selectors do not all compile never
/// succeeds. A plan that comes out is well-formed and carries the information-page link; its status stays
/// open until that page is read.
pub fn plan_syosetu_novel(html: &str) -> (r: NovelResult<NovelPlan>)
    ensures
        r matches Ok(p) ==> plan_wf(p) && p.info_path is Some && p.status is None,
        r matches Err(e) ==> scan_error_ok(e),
        !scan_selectors_compile() ==> r is Err,
{
    let node = dom::parse_html(html);
    let events = match collect_toc_events(node) {
        Ok(events) => events,
        Err(e) => return Err(e),
    };
    let total = events.len();
    let ghost evs = events@;
    let mut data = toc::process_toc_events(events);
    data.move_chapters_to_section();
    proof {
        crate::novel::lemma_scan_plan_wf(evs, data, total as int);
    }
    syosetu_plan_of(data)
}

/// Assembles the finished work for this source from its plan, the status
/// read from the information page, and the fetched chapter pages, in
/// order-number order.
pub fn make_syosetu_novel(source_url: &str, plan: NovelPlan, pages: Vec<
    Result<String, NovelError>,
>) -> (r: NovelResult<Novel>)
    requires
        plan_wf(plan),
        plan.status is Some,
        pages@.len() == flat_infos(plan.contents).len(),
    ensures
        r matches Ok(n) ==> {
            &&& n.title == plan.title
            &&& n.author == plan.author
            &&& plan.status == Some(n.status)
            &&& n.source_url@ == source_url@
            &&& crate::novel::contents_match(plan.contents, n.contents)
            &&& crate::novel::work_wf(n)
        },
        r matches Err(e) ==> crate::novel::assembly_error_ok(e, pages@, flat_infos(plan.contents)),
{
    let site = crate::novel::NovelSite::Syosetu;
    site.make_novel(source_url, plan, pages)
}

} // verus!
