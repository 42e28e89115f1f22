//! The traversal engine: walks all element descendants of a parsed page
//! once, in document order, and reports every registered hook that fires on
//! each element. A hook fires iff its selector matches the element and its
//! anti-selector, when present, does not. Hooks are identified by a
//! caller-chosen tag, so each adapter dispatches on a closed set of tags.

use vstd::prelude::*;
use vstd::string::StringExecFns;

use crate::dom;
use crate::dom::Element;

verus! {

/// A defect in an adapter's configuration, found before any page is read.
#[derive(Debug, Clone, PartialEq)]
pub enum TraverseError {
    /// The carried selector text failed to compile.
    CssSelectorCompilation(String),
}

/// One registered (selector, optional anti-selector, tag) triple.
pub struct Hook<T> {
    selectors: kuchiki::Selectors,
    negative_selectors: Option<kuchiki::Selectors>,
    tag: T,
}

impl<T: Copy> Hook<T> {
    pub closed spec fn spec_tag(&self) -> T {
        self.tag
    }

    /// Whether this hook fires on the element: the anti-selector, when
    /// present, must not match, and the selector must.
    pub fn match_element(&self, element: &Element) -> bool {
        if let Some(neg_selectors) = &self.negative_selectors {
            if neg_selectors.matches(element) {
                return false;
            }
        }
        self.selectors.matches(element)
    }
}

/// Walks a parsed page and collects, in document order, every (tag,
/// element) pair for which the tagged hook fires.
pub struct TreeTraverser<T> {
    root_node: kuchiki::NodeRef,
    hooks: Vec<Hook<T>>,
}

impl<T: Copy> TreeTraverser<T> {
    /// The tags of the registered hooks, in registration order.
    pub closed spec fn hook_tags(&self) -> Seq<T> {
        self.hooks@.map_values(|h: Hook<T>| h.spec_tag())
    }

    pub fn new(root_node: kuchiki::NodeRef) -> (t: TreeTraverser<T>)
        ensures
            t.hook_tags() =~= Seq::<T>::empty(),
    {
        TreeTraverser { root_node, hooks: Vec::new() }
    }

    /// Registers a hook. Fails, naming the offending selector text, iff the
    /// selector or the given anti-selector does not compile.
    pub fn add_hook(self, selectors: &str, negative_selectors: Option<&str>, tag: T) -> (r: Result<
        TreeTraverser<T>,
        TraverseError,
    >)
        ensures
            r is Ok <==> (dom::selector_compiles(selectors@) && (negative_selectors matches Some(
                neg,
            ) ==> dom::selector_compiles(neg@))),
            r matches Ok(t) ==> t.hook_tags() =~= self.hook_tags().push(tag),
            r matches Err(e) ==> ({
                &&& e matches TraverseError::CssSelectorCompilation(s)
                &&& if !dom::selector_compiles(selectors@) {
                    s@ == selectors@
                } else {
                    negative_selectors matches Some(neg) && s@ == neg@
                }
            }),
    {
        let compiled = match kuchiki::Selectors::compile(selectors) {
            Ok(c) => c,
            Err(_) => {
                return Err(TraverseError::CssSelectorCompilation(String::from_str(selectors)));
            },
        };
        let negative = match negative_selectors {
            Some(neg_s) => match kuchiki::Selectors::compile(neg_s) {
                Ok(c) => Some(c),
                Err(_) => {
                    return Err(TraverseError::CssSelectorCompilation(String::from_str(neg_s)));
                },
            },
            None => None,
        };
        let mut hooks = self.hooks;
        hooks.push(Hook { selectors: compiled, negative_selectors: negative, tag });
        Ok(TreeTraverser { root_node: self.root_node, hooks })
    }

    /// Visits every element descendant of the root once, in document order,
    /// evaluating the hooks in registration order on each; returns the
    /// firings. Every returned tag is one of the registered tags.
    pub fn traverse(self) -> (firings: Vec<(T, Element)>)
        ensures
            forall|i: int|
                0 <= i < firings@.len() ==> self.hook_tags().contains(#[trigger] firings@[i].0),
    {
        let elements = dom::element_descendants(&self.root_node);
        let mut firings: Vec<(T, Element)> = Vec::new();
        let mut i: usize = 0;
        while i < elements.len()
            invariant
                forall|k: int|
                    0 <= k < firings@.len() ==> self.hook_tags().contains(#[trigger] firings@[k].0),
            decreases elements.len() - i,
        {
            let element = &elements[i];
            let mut j: usize = 0;
            while j < self.hooks.len()
                invariant
                    forall|k: int|
                        0 <= k < firings@.len() ==> self.hook_tags().contains(
                            #[trigger] firings@[k].0,
                        ),
            decreases self.hooks.len() - j,
            {
                let hook = &self.hooks[j];
                if hook.match_element(element) {
                    proof {
                        assert(self.hook_tags()[j as int] == self.hooks@[j as int].spec_tag());
                    }
                    firings.push((hook.tag, dom::clone_element(element)));
                }
                j += 1;
            }
            i += 1;
        }
        firings
    }
}

} // verus!
