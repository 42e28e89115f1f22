//! Tests of content extraction on plain values: annotation pairing, the
//! paragraph walk, the per-source line folds, and the status fold.

use novelgrab::novel::kakuyomu::content::content_lines_of;
use novelgrab::novel::novel_utils::get_ruby;
use novelgrab::novel::novel_utils::line_spans;
use novelgrab::novel::novel_utils::LineEvent;
use novelgrab::novel::novel_utils::ParaChild;
use novelgrab::novel::novel_utils::RubyChild;
use novelgrab::novel::syosetu::content::page_lines_of;
use novelgrab::novel::syosetu::info_page::status_from_markers;
use novelgrab::novel::Content;
use novelgrab::novel::ContentLine;
use novelgrab::novel::NovelStatus;
use novelgrab::NovelComponent;
use novelgrab::NovelError;

fn ruby_name() -> String {
    String::from("ruby")
}

#[test]
fn base_and_gloss_make_one_annotated_span() {
    let children = vec![
        RubyChild::Base(String::from("漢字")),
        RubyChild::Gloss(String::from("かんじ")),
    ];
    let spans = get_ruby(&ruby_name(), &children).unwrap();
    assert_eq!(
        spans,
        vec![Content::Ruby { main: String::from("漢字"), above: String::from("かんじ") }]
    );
}

#[test]
fn text_child_serves_as_base() {
    let children = vec![
        RubyChild::Text(String::from("言葉")),
        RubyChild::Gloss(String::from("ことば")),
    ];
    let spans = get_ruby(&ruby_name(), &children).unwrap();
    assert_eq!(
        spans,
        vec![Content::Ruby { main: String::from("言葉"), above: String::from("ことば") }]
    );
}

#[test]
fn several_pairs_share_one_group() {
    let children = vec![
        RubyChild::Base(String::from("a")),
        RubyChild::Gloss(String::from("1")),
        RubyChild::Base(String::from("b")),
        RubyChild::Gloss(String::from("2")),
    ];
    let spans = get_ruby(&ruby_name(), &children).unwrap();
    assert_eq!(spans.len(), 2);
    assert_eq!(spans[0], Content::Ruby { main: String::from("a"), above: String::from("1") });
    assert_eq!(spans[1], Content::Ruby { main: String::from("b"), above: String::from("2") });
}

#[test]
fn base_without_gloss_is_malformed() {
    let children = vec![RubyChild::Base(String::from("只"))];
    assert_eq!(get_ruby(&ruby_name(), &children), Err(NovelError::MalformedAnnotation));
}

#[test]
fn gloss_without_base_is_malformed() {
    let children = vec![RubyChild::Gloss(String::from("よみ"))];
    assert_eq!(get_ruby(&ruby_name(), &children), Err(NovelError::MalformedAnnotation));
}

#[test]
fn trailing_half_pair_is_malformed() {
    let children = vec![
        RubyChild::Base(String::from("a")),
        RubyChild::Gloss(String::from("1")),
        RubyChild::Base(String::from("b")),
    ];
    assert_eq!(get_ruby(&ruby_name(), &children), Err(NovelError::MalformedAnnotation));
}

#[test]
fn non_ruby_element_contributes_nothing() {
    let children = vec![RubyChild::Base(String::from("a"))];
    assert_eq!(get_ruby(&String::from("em"), &children), Ok(Vec::new()));
}

#[test]
fn paragraph_walk_keeps_text_verbatim_and_in_order() {
    let children = vec![
        ParaChild::Text(String::from("  before ")),
        ParaChild::Elem {
            name: ruby_name(),
            children: vec![
                RubyChild::Base(String::from("字")),
                RubyChild::Gloss(String::from("じ")),
            ],
        },
        ParaChild::Text(String::from("after")),
        ParaChild::Other,
    ];
    let spans = line_spans(&children).unwrap();
    assert_eq!(
        spans,
        vec![
            Content::Span(String::from("  before ")),
            Content::Ruby { main: String::from("字"), above: String::from("じ") },
            Content::Span(String::from("after")),
        ]
    );
}

#[test]
fn paragraph_walk_aborts_on_malformed_annotation() {
    let children = vec![
        ParaChild::Text(String::from("x")),
        ParaChild::Elem {
            name: ruby_name(),
            children: vec![RubyChild::Gloss(String::from("half"))],
        },
        ParaChild::Text(String::from("y")),
    ];
    assert_eq!(line_spans(&children), Err(NovelError::MalformedAnnotation));
}

fn para(text: &str) -> LineEvent {
    LineEvent::Para(vec![ParaChild::Text(String::from(text))])
}

#[test]
fn blank_lines_round_trip_in_kakuyomu_fold() {
    let events = vec![para("one"), LineEvent::Blank, LineEvent::Blank, para("two")];
    let lines = content_lines_of(&events).unwrap();
    assert_eq!(lines.len(), 4);
    assert!(matches!(lines[1], ContentLine::Blank));
    assert!(matches!(lines[2], ContentLine::Blank));
    assert_eq!(lines[0], ContentLine::Line(vec![Content::Span(String::from("one"))]));
    assert_eq!(lines[3], ContentLine::Line(vec![Content::Span(String::from("two"))]));
}

#[test]
fn kakuyomu_fold_blanks_structurally_empty_paragraphs() {
    // A paragraph whose walk yields no spans is a paragraph break, kept as
    // a blank line, never dropped and never an empty text line.
    let events = vec![LineEvent::Para(Vec::new()), para("x")];
    let lines = content_lines_of(&events).unwrap();
    assert_eq!(lines.len(), 2);
    assert_eq!(lines[0], ContentLine::Blank);
    let spanless = vec![ParaChild::Elem { name: String::from("img"), children: Vec::new() }];
    let events = vec![para("x"), LineEvent::Para(spanless)];
    let lines = content_lines_of(&events).unwrap();
    assert_eq!(lines[1], ContentLine::Blank);
}

#[test]
fn syosetu_fold_blanks_empty_paragraphs_exactly_once() {
    // An empty paragraph is a blank line; a paragraph that carries the
    // line-break marker itself reports nothing, since the marker event
    // beside it already reports that blank.
    let break_para = vec![ParaChild::Elem { name: String::from("br"), children: Vec::new() }];
    let events = vec![
        para("one"),
        LineEvent::Para(Vec::new()),
        LineEvent::Para(break_para),
        LineEvent::Blank,
        para("two"),
    ];
    let lines = page_lines_of(&events).unwrap();
    assert_eq!(
        lines,
        vec![
            ContentLine::Line(vec![Content::Span(String::from("one"))]),
            ContentLine::Blank,
            ContentLine::Blank,
            ContentLine::Line(vec![Content::Span(String::from("two"))]),
        ]
    );
}

#[test]
fn fold_surfaces_malformed_annotation() {
    let events = vec![
        para("fine"),
        LineEvent::Para(vec![ParaChild::Elem {
            name: ruby_name(),
            children: vec![RubyChild::Base(String::from("x"))],
        }]),
    ];
    assert_eq!(content_lines_of(&events), Err(NovelError::MalformedAnnotation));
    assert_eq!(page_lines_of(&events), Err(NovelError::MalformedAnnotation));
}

#[test]
fn info_link_rule_is_exact() {
    let label = String::from("小説情報");
    let href = Some(String::from("/novelview/infotop/ncode/n1/"));
    assert_eq!(
        novelgrab::novel::syosetu::info_link_of(&label, href.clone()),
        href
    );
    assert_eq!(novelgrab::novel::syosetu::info_link_of(&label, None), None);
    assert_eq!(
        novelgrab::novel::syosetu::info_link_of(&String::from("目次"), href),
        None
    );
}

#[test]
fn dates_compose_with_marked_edits() {
    assert_eq!(
        novelgrab::novel::syosetu::compose_date(
            String::from("2020/01/02"),
            Some(String::from("2020/01/03 改稿"))
        ),
        "2020/01/02（2020/01/03 改稿）"
    );
    assert_eq!(
        novelgrab::novel::syosetu::compose_date(String::from("2020/01/02"), None),
        "2020/01/02"
    );
}

#[test]
fn status_fold_takes_the_last_marker() {
    assert_eq!(
        status_from_markers(&Vec::new()),
        Err(NovelError::ComponentMissing(NovelComponent::Status))
    );
    assert_eq!(
        status_from_markers(&vec![NovelStatus::Finished]),
        Ok(NovelStatus::Finished)
    );
    assert_eq!(
        status_from_markers(&vec![NovelStatus::Running]),
        Ok(NovelStatus::Running)
    );
    assert_eq!(
        status_from_markers(&vec![NovelStatus::Finished, NovelStatus::Running]),
        Ok(NovelStatus::Running)
    );
}
