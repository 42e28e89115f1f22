//! The syosetu information page: the one place this source states whether
//! a work is still running or finished, as one of two marker elements.

use vstd::prelude::*;

use crate::dom;
use crate::novel::NovelStatus;
use crate::traverser::TreeTraverser;
use crate::{NovelComponent, NovelError, NovelResult};

verus! {

/// The status a run of marker sightings settles on: the last marker wins;
/// a page showing no marker at all has no status, which is an error, never
/// a silent default.
pub fn status_from_markers(markers: &Vec<NovelStatus>) -> (r: NovelResult<NovelStatus>)
    ensures
        markers@.len() == 0 ==> r == Err::<NovelStatus, NovelError>(
            NovelError::ComponentMissing(NovelComponent::Status),
        ),
        markers@.len() > 0 ==> r == Ok::<NovelStatus, NovelError>(markers@.last()),
{
    if markers.len() == 0 {
        Err(NovelError::ComponentMissing(NovelComponent::Status))
    } else {
        Ok(markers[markers.len() - 1])
    }
}

/// The two marker selectors an information-page scan registers.
pub open spec fn info_selector(s: Seq<char>) -> bool {
    ||| s == "#noveltype"@
    ||| s == "#noveltype_notend"@
}

/// Whether both marker selectors compile.
pub open spec fn info_selectors_compile() -> bool {
    &&& dom::selector_compiles("#noveltype"@)
    &&& dom::selector_compiles("#noveltype_notend"@)
}

/// What a failed status read can report: one of the two marker selector
/// texts that does not compile, or a page showing neither marker.
pub open spec fn info_error_ok(e: NovelError) -> bool {
    ||| ({
        &&& e matches NovelError::TraverseError(te)
        &&& te matches crate::traverser::TraverseError::CssSelectorCompilation(sel)
        &&& !dom::selector_compiles(sel@)
        &&& info_selector(sel@)
    })
    ||| e == NovelError::ComponentMissing(NovelComponent::Status)
}

/// Reads the work's status from its information page: a completed marker
/// yields the finished status, a running marker the running one; a page
/// with neither is missing its status.
pub fn fetch_status_in_info(html: &str) -> (r: NovelResult<NovelStatus>)
    ensures
        r matches Err(e) ==> info_error_ok(e),
        !info_selectors_compile() ==> r is Err,
{
    let node = dom::parse_html(html);
    let traverser: TreeTraverser<NovelStatus> = TreeTraverser::new(node);
    let traverser = match traverser.add_hook("#noveltype", None, NovelStatus::Finished) {
        Ok(t) => t,
        Err(e) => return Err(NovelError::TraverseError(e)),
    };
    let traverser = match traverser.add_hook("#noveltype_notend", None, NovelStatus::Running) {
        Ok(t) => t,
        Err(e) => return Err(NovelError::TraverseError(e)),
    };
    let firings = traverser.traverse();
    let mut markers: Vec<NovelStatus> = Vec::new();
    let mut i: usize = 0;
    while i < firings.len()
        decreases firings@.len() - i,
    {
        markers.push(firings[i].0);
        i += 1;
    }
    status_from_markers(&markers)
}

} // verus!
