//! Utilities shared by the source adapters: the annotation (ruby)
//! extractor and its model, the paragraph-walk that turns one line's child
//! nodes into spans, digit transliteration for date strings, and plain
//! string helpers.

use vstd::prelude::*;
use vstd::string::StrSliceExecFns;
use vstd::string::StringExecFns;

use crate::dom;
use crate::dom::{Element, NodeKind};
use crate::novel::Content;
use crate::NovelError;

verus! {

/// The Japanese numeral for an ASCII digit; any other character is kept.
pub open spec fn ja_digit_of(c: char) -> char {
    if c == '0' {
        '〇'
    } else if c == '1' {
        '一'
    } else if c == '2' {
        '二'
    } else if c == '3' {
        '三'
    } else if c == '4' {
        '四'
    } else if c == '5' {
        '五'
    } else if c == '6' {
        '六'
    } else if c == '7' {
        '七'
    } else if c == '8' {
        '八'
    } else if c == '9' {
        '九'
    } else {
        c
    }
}

/// The characterwise transliteration of a whole string.
pub open spec fn to_ja_digits(s: Seq<char>) -> Seq<char> {
    s.map_values(|c: char| ja_digit_of(c))
}

/// Replaces every ASCII digit with the corresponding Japanese numeral,
/// keeping every other character as it is.
pub fn convert_num_string_to_ja(num_string: &str) -> (r: String)
    ensures
        r@ == to_ja_digits(num_string@),
{
    let n = num_string.unicode_len();
    let mut r = String::new();
    let mut i: usize = 0;
    while i < n
        invariant
            n == num_string@.len(),
            i <= n,
            r@.len() == i,
            forall|j: int| 0 <= j < i ==> r@[j] == ja_digit_of(num_string@[j]),
        decreases n - i,
    {
        let c = num_string.get_char(i);
        match c {
            '0' => {
                proof {
                    reveal_strlit("〇");
                }
                r.append("〇");
            },
            '1' => {
                proof {
                    reveal_strlit("一");
                }
                r.append("一");
            },
            '2' => {
                proof {
                    reveal_strlit("二");
                }
                r.append("二");
            },
            '3' => {
                proof {
                    reveal_strlit("三");
                }
                r.append("三");
            },
            '4' => {
                proof {
                    reveal_strlit("四");
                }
                r.append("四");
            },
            '5' => {
                proof {
                    reveal_strlit("五");
                }
                r.append("五");
            },
            '6' => {
                proof {
                    reveal_strlit("六");
                }
                r.append("六");
            },
            '7' => {
                proof {
                    reveal_strlit("七");
                }
                r.append("七");
            },
            '8' => {
                proof {
                    reveal_strlit("八");
                }
                r.append("八");
            },
            '9' => {
                proof {
                    reveal_strlit("九");
                }
                r.append("九");
            },
            _ => {
                let s = num_string.substring_char(i, i + 1);
                r.append(s);
            },
        }
        i += 1;
    }
    proof {
        assert(r@ =~= to_ja_digits(num_string@));
    }
    r
}

/// Whether `prefix` is a prefix of `s`, character for character.
pub open spec fn spec_starts_with(s: Seq<char>, prefix: Seq<char>) -> bool {
    s.len() >= prefix.len() && s.subrange(0, prefix.len() as int) == prefix
}

/// Character-for-character prefix test.
pub fn str_starts_with(s: &str, prefix: &str) -> (r: bool)
    ensures
        r == spec_starts_with(s@, prefix@),
{
    let n = prefix.unicode_len();
    if s.unicode_len() < n {
        return false;
    }
    let mut i: usize = 0;
    while i < n
        invariant
            i <= n,
            n == prefix@.len(),
            s@.len() >= n,
            forall|j: int| 0 <= j < i ==> s@[j] == prefix@[j],
        decreases n - i,
    {
        if s.get_char(i) != prefix.get_char(i) {
            proof {
                assert(s@.subrange(0, n as int)[i as int] == s@[i as int]);
            }
            return false;
        }
        i += 1;
    }
    proof {
        assert(s@.subrange(0, n as int) =~= prefix@);
    }
    true
}

/// One child node of an annotation group, reduced to what the extractor
/// reads: a plain text run, a base-text child, a gloss-text child, or
/// anything else.
#[derive(Debug, Clone, PartialEq)]
pub enum RubyChild {
    Text(String),
    Base(String),
    Gloss(String),
    Other,
}

/// One child node of a paragraph-level element: a plain text run, an
/// element with its tag name and its own children, or anything else.
#[derive(Debug, Clone, PartialEq)]
pub enum ParaChild {
    Text(String),
    Elem { name: String, children: Vec<RubyChild> },
    Other,
}

/// One firing of a chapter-body scan, in page order: a paragraph with its
/// classified children, or a dedicated blank-line marker.
#[derive(Debug, Clone, PartialEq)]
pub enum LineEvent {
    Para(Vec<ParaChild>),
    Blank,
}

/// The extractor's state while walking an annotation group: the base text
/// collected so far, the gloss collected so far, and the spans already
/// emitted. As soon as both halves are present they are emitted as one
/// annotated span and the pair resets, so several pairs can share a group.
pub open spec fn ruby_step(
    st: (Option<String>, Option<String>, Seq<Content>),
    c: RubyChild,
) -> (Option<String>, Option<String>, Seq<Content>) {
    let st1 = match c {
        RubyChild::Text(s) => (Some(s), st.1, st.2),
        RubyChild::Base(s) => (Some(s), st.1, st.2),
        RubyChild::Gloss(s) => (st.0, Some(s), st.2),
        RubyChild::Other => st,
    };
    if st1.0 is Some && st1.1 is Some {
        (
            None,
            None,
            st1.2.push(Content::Ruby { main: st1.0->0, above: st1.1->0 }),
        )
    } else {
        st1
    }
}

/// The extractor's state after a whole annotation group.
pub open spec fn ruby_run(children: Seq<RubyChild>) -> (
    Option<String>,
    Option<String>,
    Seq<Content>,
)
    decreases children.len(),
{
    if children.len() == 0 {
        (None, None, Seq::empty())
    } else {
        ruby_step(ruby_run(children.drop_last()), children.last())
    }
}

/// Whether a group's walk ends cleanly, with no half-collected pair left.
pub open spec fn ruby_balanced(children: Seq<RubyChild>) -> bool {
    ruby_run(children).0 is None && ruby_run(children).1 is None
}

/// Extracts the annotated spans of one element's children. An element that
/// is not an annotation group contributes nothing. A group whose walk ends
/// with exactly one half of a pair collected is malformed input: the error
/// is returned, never a partial span.
pub fn get_ruby(name: &String, children: &Vec<RubyChild>) -> (r: Result<Vec<Content>, NovelError>)
    ensures
        name@ != "ruby"@ ==> (r matches Ok(v) && v@ == Seq::<Content>::empty()),
        name@ == "ruby"@ && ruby_balanced(children@) ==> (r matches Ok(v) && v@ == ruby_run(
            children@,
        ).2),
        name@ == "ruby"@ && !ruby_balanced(children@) ==> r == Err::<Vec<Content>, NovelError>(
            NovelError::MalformedAnnotation,
        ),
{
    let mut out: Vec<Content> = Vec::new();
    if !(*name == String::from_str("ruby")) {
        return Ok(out);
    }
    let mut main: Option<String> = None;
    let mut above: Option<String> = None;
    let mut i: usize = 0;
    proof {
        assert(children@.subrange(0, 0) =~= Seq::<RubyChild>::empty());
    }
    while i < children.len()
        invariant
            i <= children@.len(),
            (main, above, out@) == ruby_run(children@.subrange(0, i as int)),
        decreases children@.len() - i,
    {
        proof {
            assert(children@.subrange(0, i as int + 1).drop_last() =~= children@.subrange(
                0,
                i as int,
            ));
            assert(children@.subrange(0, i as int + 1).last() == children@[i as int]);
        }
        match &children[i] {
            RubyChild::Text(s) => {
                main = Some(s.clone());
            },
            RubyChild::Base(s) => {
                main = Some(s.clone());
            },
            RubyChild::Gloss(s) => {
                above = Some(s.clone());
            },
            RubyChild::Other => {},
        }
        if main.is_some() && above.is_some() {
            let main_text = main.take().unwrap();
            let above_text = above.take().unwrap();
            out.push(Content::Ruby { main: main_text, above: above_text });
        }
        i += 1;
    }
    proof {
        assert(children@.subrange(0, children@.len() as int) =~= children@);
    }
    if main.is_some() || above.is_some() {
        return Err(NovelError::MalformedAnnotation);
    }
    Ok(out)
}

/// LAW: an annotation group holding one base text and one gloss, in either
/// order — the base given as a dedicated base child or as a plain text run —
/// produces exactly one annotated span carrying both, and ends balanced.
pub proof fn lemma_annotation_pair(b: String, g: String)
    ensures
        ruby_run(seq![RubyChild::Base(b), RubyChild::Gloss(g)]) == (
            None::<String>,
            None::<String>,
            seq![Content::Ruby { main: b, above: g }],
        ),
        ruby_run(seq![RubyChild::Gloss(g), RubyChild::Base(b)]) == (
            None::<String>,
            None::<String>,
            seq![Content::Ruby { main: b, above: g }],
        ),
        ruby_run(seq![RubyChild::Text(b), RubyChild::Gloss(g)]) == (
            None::<String>,
            None::<String>,
            seq![Content::Ruby { main: b, above: g }],
        ),
{
    reveal_with_fuel(ruby_run, 3);
    let s1 = seq![RubyChild::Base(b), RubyChild::Gloss(g)];
    assert(s1.drop_last() =~= seq![RubyChild::Base(b)]);
    assert(seq![RubyChild::Base(b)].drop_last() =~= Seq::<RubyChild>::empty());
    assert(ruby_run(s1).2 =~= seq![Content::Ruby { main: b, above: g }]);
    let s2 = seq![RubyChild::Gloss(g), RubyChild::Base(b)];
    assert(s2.drop_last() =~= seq![RubyChild::Gloss(g)]);
    assert(seq![RubyChild::Gloss(g)].drop_last() =~= Seq::<RubyChild>::empty());
    assert(ruby_run(s2).2 =~= seq![Content::Ruby { main: b, above: g }]);
    let s3 = seq![RubyChild::Text(b), RubyChild::Gloss(g)];
    assert(s3.drop_last() =~= seq![RubyChild::Text(b)]);
    assert(seq![RubyChild::Text(b)].drop_last() =~= Seq::<RubyChild>::empty());
    assert(ruby_run(s3).2 =~= seq![Content::Ruby { main: b, above: g }]);
}

/// A group of complete annotation pairs in child order: each base child
/// followed by its gloss child.
pub open spec fn pair_children(ps: Seq<(String, String)>) -> Seq<RubyChild>
    decreases ps.len(),
{
    if ps.len() == 0 {
        Seq::empty()
    } else {
        pair_children(ps.drop_last()) + seq![
            RubyChild::Base(ps.last().0),
            RubyChild::Gloss(ps.last().1),
        ]
    }
}

/// LAW: an annotation group holding any number of complete base/gloss
/// pairs yields exactly one annotated span per pair, in group order, and
/// ends balanced: the collector resets after each emission, so pairs never
/// bleed into one another.
pub proof fn lemma_annotation_pairs(ps: Seq<(String, String)>)
    ensures
        ruby_run(pair_children(ps)) == (
            None::<String>,
            None::<String>,
            Seq::new(ps.len(), |i: int| Content::Ruby { main: ps[i].0, above: ps[i].1 }),
        ),
    decreases ps.len(),
{
    reveal_with_fuel(ruby_run, 3);
    if ps.len() == 0 {
        assert(ruby_run(pair_children(ps)).2 =~= Seq::new(
            0,
            |i: int| Content::Ruby { main: ps[i].0, above: ps[i].1 },
        ));
    } else {
        lemma_annotation_pairs(ps.drop_last());
        let s = pair_children(ps);
        let s0 = pair_children(ps.drop_last());
        assert(s.drop_last().drop_last() =~= s0);
        assert(s.drop_last().last() == RubyChild::Base(ps.last().0));
        assert(s.last() == RubyChild::Gloss(ps.last().1));
        assert(ruby_run(s).2 =~= Seq::new(
            ps.len(),
            |i: int| Content::Ruby { main: ps[i].0, above: ps[i].1 },
        ));
    }
}

/// LAW: a group holding only one half of a pair — only a base (or text),
/// or only a gloss — ends unbalanced, so its extraction is refused as a
/// malformed annotation and nothing partial is emitted.
pub proof fn lemma_annotation_unbalanced(c: RubyChild)
    requires
        c is Base || c is Gloss || c is Text,
    ensures
        !ruby_balanced(seq![c]),
        ruby_run(seq![c]).2 == Seq::<Content>::empty(),
{
    reveal_with_fuel(ruby_run, 2);
    assert(seq![c].drop_last() =~= Seq::<RubyChild>::empty());
    assert(seq![c].last() == c);
}

/// The spans of one paragraph's children, walked left to right: a text
/// child is a plain span kept verbatim; an annotation group contributes
/// its annotated spans or aborts the walk; any other child contributes
/// nothing.
pub open spec fn spans_run(children: Seq<ParaChild>) -> Result<Seq<Content>, NovelError>
    decreases children.len(),
{
    if children.len() == 0 {
        Ok(Seq::empty())
    } else {
        match spans_run(children.drop_last()) {
            Err(e) => Err(e),
            Ok(out) => match children.last() {
                ParaChild::Text(s) => Ok(out.push(Content::Span(s))),
                ParaChild::Elem { name, children: ruby_children } => {
                    if name@ == "ruby"@ {
                        if ruby_balanced(ruby_children@) {
                            Ok(out + ruby_run(ruby_children@).2)
                        } else {
                            Err(NovelError::MalformedAnnotation)
                        }
                    } else {
                        Ok(out)
                    }
                },
                ParaChild::Other => Ok(out),
            },
        }
    }
}

/// The only way a paragraph walk fails is a malformed annotation.
pub proof fn lemma_spans_run_err_is_malformed(children: Seq<ParaChild>)
    ensures
        spans_run(children) is Err ==> spans_run(children) == Err::<Seq<Content>, NovelError>(
            NovelError::MalformedAnnotation,
        ),
    decreases children.len(),
{
    if children.len() > 0 {
        lemma_spans_run_err_is_malformed(children.drop_last());
    }
}

/// Once a prefix of the walk has failed, the whole walk fails the same way.
proof fn lemma_spans_run_err_persists(children: Seq<ParaChild>, i: int)
    requires
        0 <= i <= children.len(),
        spans_run(children.subrange(0, i)) is Err,
    ensures
        spans_run(children) is Err,
        spans_run(children) == spans_run(children.subrange(0, i)),
    decreases children.len() - i,
{
    if i == children.len() {
        assert(children.subrange(0, i) =~= children);
    } else {
        assert(children.subrange(0, i + 1).drop_last() =~= children.subrange(0, i));
        lemma_spans_run_err_persists(children, i + 1);
    }
}

/// Builds the ordered spans of one paragraph from its children.
pub fn line_spans(children: &Vec<ParaChild>) -> (r: Result<Vec<Content>, NovelError>)
    ensures
        spans_run(children@) matches Ok(s) ==> (r matches Ok(v) && v@ == s),
        spans_run(children@) matches Err(e) ==> r == Err::<Vec<Content>, NovelError>(e),
{
    let mut out: Vec<Content> = Vec::new();
    let mut i: usize = 0;
    proof {
        assert(children@.subrange(0, 0) =~= Seq::<ParaChild>::empty());
    }
    while i < children.len()
        invariant
            i <= children@.len(),
            spans_run(children@.subrange(0, i as int)) == Ok::<Seq<Content>, NovelError>(out@),
        decreases children@.len() - i,
    {
        proof {
            assert(children@.subrange(0, i as int + 1).drop_last() =~= children@.subrange(
                0,
                i as int,
            ));
            assert(children@.subrange(0, i as int + 1).last() == children@[i as int]);
        }
        match &children[i] {
            ParaChild::Text(s) => {
                out.push(Content::Span(s.clone()));
            },
            ParaChild::Elem { name, children: ruby_children } => {
                match get_ruby(name, ruby_children) {
                    Ok(mut spans) => {
                        out.append(&mut spans);
                    },
                    Err(e) => {
                        proof {
                            lemma_spans_run_err_persists(children@, i as int + 1);
                        }
                        return Err(e);
                    },
                }
            },
            ParaChild::Other => {},
        }
        i += 1;
    }
    proof {
        assert(children@.subrange(0, children@.len() as int) =~= children@);
    }
    Ok(out)
}

/// Whether a paragraph carries a line-break element among its children.
/// Such a paragraph is the dedicated blank-line shape that a separate
/// marker hook already reports, so the paragraph itself must not report a
/// second blank.
pub open spec fn has_break_child(children: Seq<ParaChild>) -> bool {
    exists|i: int|
        {
            &&& 0 <= i < children.len()
            &&& (#[trigger] children[i]) matches ParaChild::Elem { name: n, children: c }
            &&& n@ == "br"@
        }
}

/// Looks for a line-break element among a paragraph's children.
pub fn has_break(children: &Vec<ParaChild>) -> (r: bool)
    ensures
        r == has_break_child(children@),
{
    let mut i: usize = 0;
    while i < children.len()
        invariant
            i <= children@.len(),
            forall|k: int|
                0 <= k < i ==> ((#[trigger] children@[k]) matches ParaChild::Elem {
                    name: n,
                    children: c,
                } ==> n@ != "br"@),
        decreases children@.len() - i,
    {
        match &children[i] {
            ParaChild::Elem { name, children: _ } => {
                if *name == String::from_str("br") {
                    return true;
                }
            },
            _ => {},
        }
        i += 1;
    }
    false
}

/// Reads one paragraph-level element's children from the page: text nodes
/// keep their own text; an element child carries its tag name and, for
/// annotation groups, its classified children (text runs, base-text
/// children, gloss children); anything else is opaque.
pub(crate) fn para_children(element: &Element) -> Vec<ParaChild> {
    let node = dom::as_node(element);
    let child_list = dom::child_nodes(&node);
    let mut out: Vec<ParaChild> = Vec::new();
    let mut i: usize = 0;
    while i < child_list.len()
        decreases child_list@.len() - i,
    {
        let child = &child_list[i];
        match dom::node_kind(child) {
            NodeKind::Text(text) => {
                out.push(ParaChild::Text(text));
            },
            NodeKind::Element(name) => {
                let ruby_children = classify_ruby_children(child);
                out.push(ParaChild::Elem { name, children: ruby_children });
            },
            NodeKind::Other => {
                out.push(ParaChild::Other);
            },
        }
        i += 1;
    }
    out
}

/// Classifies the children of an annotation group: a text node keeps its
/// own text; a base-text element and a gloss element carry their text
/// contents; everything else is opaque.
pub(crate) fn classify_ruby_children(node: &kuchiki::NodeRef) -> Vec<RubyChild> {
    let child_list = dom::child_nodes(node);
    let mut out: Vec<RubyChild> = Vec::new();
    let mut i: usize = 0;
    while i < child_list.len()
        decreases child_list@.len() - i,
    {
        let child = &child_list[i];
        match dom::node_kind(child) {
            NodeKind::Text(text) => {
                out.push(RubyChild::Text(text));
            },
            NodeKind::Element(name) => {
                if name == String::from_str("rb") {
                    out.push(RubyChild::Base(dom::node_text(child)));
                } else if name == String::from_str("rt") {
                    out.push(RubyChild::Gloss(dom::node_text(child)));
                } else {
                    out.push(RubyChild::Other);
                }
            },
            NodeKind::Other => {
                out.push(RubyChild::Other);
            },
        }
        i += 1;
    }
    out
}

} // verus!
