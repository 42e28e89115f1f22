//! End-to-end tests on real HTML: the whole pipeline from page text to
//! validated plan and assembled work, driving the DOM traversal for real.

use kuchiki::traits::TendrilSink;

use novelgrab::novel::kakuyomu::content::fetch_novel_content;
use novelgrab::novel::kakuyomu::plan_kakuyomu_novel;
use novelgrab::novel::kakuyomu::make_kakuyomu_novel;
use novelgrab::novel::syosetu::content::fetch_page_content;
use novelgrab::novel::syosetu::info_page::fetch_status_in_info;
use novelgrab::novel::syosetu::plan_syosetu_novel;
use novelgrab::novel::syosetu::make_syosetu_novel;
use novelgrab::novel::Content;
use novelgrab::novel::ContentLine;
use novelgrab::novel::NovelContents;
use novelgrab::novel::NovelStatus;
use novelgrab::novel::PlanContents;
use novelgrab::traverser::TraverseError;
use novelgrab::traverser::TreeTraverser;
use novelgrab::NovelComponent;
use novelgrab::NovelError;

fn kakuyomu_main_page() -> String {
    String::from("<html><body><h1 id=\"workTitle\"><a href=\"/works/1\">試験作品</a></h1><span id=\"workAuthor-activityName\"><a href=\"/users/x\">著者名</a></span><div id=\"workInformationList\"><dl><dt>状態</dt><dd>連載中</dd></dl></div><ol><li class=\"widget-toc-chapter\"><span>Part One</span></li><li class=\"widget-toc-episode\"><a href=\"/works/1/episodes/1\"><span class=\"widget-toc-episode-titleLabel\">First</span><time class=\"widget-toc-episode-datePublished\">2020年1月2日</time></a></li><li class=\"widget-toc-episode\"><a href=\"/works/1/episodes/2\"><span class=\"widget-toc-episode-titleLabel\">Second</span><time class=\"widget-toc-episode-datePublished\">2020年1月9日</time></a></li><li class=\"widget-toc-chapter\"><span>Part Two</span></li><li class=\"widget-toc-episode\"><a href=\"/works/1/episodes/3\"><span class=\"widget-toc-episode-titleLabel\">Third</span><time class=\"widget-toc-episode-datePublished\">2020年2月1日</time></a></li></ol></body></html>")
}

fn kakuyomu_chapter_page(text: &str) -> String {
    format!(
        "<html><body><div class=\"widget-episodeBody\"><p>{}<ruby>漢字<rt>かんじ</rt></ruby></p><p class=\"blank\"><br/></p><p>おわり</p></div></body></html>",
        text
    )
}

#[test]
fn kakuyomu_page_scans_into_a_sectioned_plan() {
    let plan = plan_kakuyomu_novel(&kakuyomu_main_page()).unwrap();
    assert_eq!(plan.title, "試験作品");
    assert_eq!(plan.author, "著者名");
    assert_eq!(plan.status, Some(NovelStatus::Running));
    assert_eq!(plan.info_path, None);
    match &plan.contents {
        PlanContents::Sections(sections) => {
            assert_eq!(sections.len(), 2);
            assert_eq!(sections[0].name, "Part One");
            assert_eq!(sections[0].chapters.len(), 2);
            assert_eq!(sections[0].chapters[0].name, "First");
            assert_eq!(sections[0].chapters[0].order_num, 1);
            assert_eq!(sections[0].chapters[0].date, "二〇二〇年一月二日");
            assert_eq!(sections[0].chapters[0].path, "/works/1/episodes/1");
            assert_eq!(sections[0].chapters[1].order_num, 2);
            assert_eq!(sections[1].name, "Part Two");
            assert_eq!(sections[1].chapters.len(), 1);
            assert_eq!(sections[1].chapters[0].order_num, 3);
        },
        PlanContents::Chapters(_) => panic!("expected sections"),
    }
}

#[test]
fn plan_descriptors_follow_order_numbers() {
    let plan = plan_kakuyomu_novel(&kakuyomu_main_page()).unwrap();
    let descriptors = plan.descriptors();
    assert_eq!(descriptors.len(), 3);
    assert_eq!(descriptors[0].path, "/works/1/episodes/1");
    assert_eq!(descriptors[0].order_num, 1);
    assert_eq!(descriptors[0].section_index, Some(0));
    assert_eq!(descriptors[2].path, "/works/1/episodes/3");
    assert_eq!(descriptors[2].order_num, 3);
    assert_eq!(descriptors[2].section_index, Some(1));
}

#[test]
fn kakuyomu_chapter_page_extracts_lines_and_annotations() {
    let lines = fetch_novel_content(&kakuyomu_chapter_page("本文")).unwrap();
    assert_eq!(lines.len(), 3);
    assert_eq!(
        lines[0],
        ContentLine::Line(vec![
            Content::Span(String::from("本文")),
            Content::Ruby { main: String::from("漢字"), above: String::from("かんじ") },
        ])
    );
    assert_eq!(lines[1], ContentLine::Blank);
    assert_eq!(lines[2], ContentLine::Line(vec![Content::Span(String::from("おわり"))]));
}

#[test]
fn empty_paragraph_on_page_is_a_blank_line() {
    // A paragraph with nothing in it is structurally blank and round-trips
    // as a paragraph break, for both sources.
    let kakuyomu_html = "<html><body><div class=\"widget-episodeBody\"><p>上</p><p></p><p>下</p></div></body></html>";
    let lines = fetch_novel_content(kakuyomu_html).unwrap();
    assert_eq!(
        lines,
        vec![
            ContentLine::Line(vec![Content::Span(String::from("上"))]),
            ContentLine::Blank,
            ContentLine::Line(vec![Content::Span(String::from("下"))]),
        ]
    );
    let syosetu_html = "<html><body><div id=\"novel_honbun\"><p>上</p><p></p><p>下</p></div></body></html>";
    let lines = fetch_page_content(syosetu_html).unwrap();
    assert_eq!(
        lines,
        vec![
            ContentLine::Line(vec![Content::Span(String::from("上"))]),
            ContentLine::Blank,
            ContentLine::Line(vec![Content::Span(String::from("下"))]),
        ]
    );
}

#[test]
fn chapter_page_without_body_is_missing_content() {
    let r = fetch_novel_content("<html><body><p>elsewhere</p></body></html>");
    assert_eq!(r, Err(NovelError::ComponentMissing(NovelComponent::ChapterContent)));
}

#[test]
fn unbalanced_ruby_on_page_aborts_the_chapter() {
    let html = "<html><body><div class=\"widget-episodeBody\"><p><ruby><rt>よみ</rt></ruby></p></div></body></html>";
    assert_eq!(fetch_novel_content(html), Err(NovelError::MalformedAnnotation));
}

#[test]
fn kakuyomu_work_assembles_in_page_order() {
    let plan = plan_kakuyomu_novel(&kakuyomu_main_page()).unwrap();
    let pages = vec![
        Ok(kakuyomu_chapter_page("いち")),
        Ok(kakuyomu_chapter_page("に")),
        Ok(kakuyomu_chapter_page("さん")),
    ];
    let novel = make_kakuyomu_novel("https://kakuyomu.jp/works/1", plan, pages).unwrap();
    assert_eq!(novel.title, "試験作品");
    assert_eq!(novel.author, "著者名");
    assert_eq!(novel.status, NovelStatus::Running);
    assert_eq!(novel.source_url, "https://kakuyomu.jp/works/1");
    assert_eq!(novel.print_name(), "試験作品 [著者名]");
    match &novel.contents {
        NovelContents::Sections(sections) => {
            assert_eq!(sections.len(), 2);
            assert_eq!(sections[0].chapters[0].name, "First");
            assert_eq!(sections[0].chapters[0].order_num, 1);
            assert_eq!(sections[0].chapters[0].content.len(), 3);
            assert_eq!(sections[1].chapters[0].order_num, 3);
            match &sections[1].chapters[0].content[0] {
                ContentLine::Line(spans) => {
                    assert_eq!(spans[0], Content::Span(String::from("さん")));
                },
                ContentLine::Blank => panic!("expected a text line"),
            }
        },
        NovelContents::Chapters(_) => panic!("expected sections"),
    }
}

#[test]
fn first_fetch_failure_aborts_the_work() {
    let plan = plan_kakuyomu_novel(&kakuyomu_main_page()).unwrap();
    let pages = vec![
        Ok(kakuyomu_chapter_page("いち")),
        Err(NovelError::Transport(String::from("connection reset"))),
        Ok(kakuyomu_chapter_page("さん")),
    ];
    let r = make_kakuyomu_novel("https://kakuyomu.jp/works/1", plan, pages);
    assert_eq!(r, Err(NovelError::Transport(String::from("connection reset"))));
}

#[test]
fn toc_without_chapters_is_refused_before_any_chapter_work() {
    // A valid page with title, author and status but no chapter rows at
    // all: the scan fails validation, so there is nothing to fetch.
    let html = "<html><body><h1 id=\"workTitle\"><a>空</a></h1><span id=\"workAuthor-activityName\"><a>著者</a></span><div id=\"workInformationList\"><dl><dt>s</dt><dd>連載中</dd></dl></div></body></html>";
    assert_eq!(
        plan_kakuyomu_novel(html),
        Err(NovelError::ComponentMissing(NovelComponent::Chapter))
    );
}

#[test]
fn heading_without_chapters_is_refused_before_any_chapter_work() {
    // The second heading owns no rows before the page ends: the scan fails
    // validation, so there is nothing to fetch.
    let kakuyomu_html = "<html><body><h1 id=\"workTitle\"><a>途中</a></h1><span id=\"workAuthor-activityName\"><a>著者</a></span><div id=\"workInformationList\"><dl><dt>s</dt><dd>連載中</dd></dl></div><ol><li class=\"widget-toc-chapter\"><span>Part One</span></li><li class=\"widget-toc-episode\"><a href=\"/works/1/episodes/1\"><span class=\"widget-toc-episode-titleLabel\">First</span><time class=\"widget-toc-episode-datePublished\">2020年1月2日</time></a></li><li class=\"widget-toc-chapter\"><span>Part Two</span></li></ol></body></html>";
    assert_eq!(
        plan_kakuyomu_novel(kakuyomu_html),
        Err(NovelError::ComponentMissing(NovelComponent::ChapterUnderSection))
    );
    let syosetu_html = "<html><body><ul id=\"head_nav\"><li><a href=\"/\">top</a></li><li><a href=\"/novelview/infotop/ncode/n1/\">小説情報</a></li></ul><p class=\"novel_title\">途中</p><div class=\"novel_writername\"><a>書き手</a></div><div class=\"chapter_title\">空の章</div></body></html>";
    assert_eq!(
        plan_syosetu_novel(syosetu_html),
        Err(NovelError::ComponentMissing(NovelComponent::ChapterUnderSection))
    );
}

#[test]
fn extraction_failure_names_the_chapter() {
    // A fetched page whose extraction fails is reported with the failing
    // chapter's order number, so the caller knows which chapter broke.
    let plan = plan_kakuyomu_novel(&kakuyomu_main_page()).unwrap();
    let bad = String::from("<html><body><div class=\"widget-episodeBody\"><p><ruby><rt>よみ</rt></ruby></p></div></body></html>");
    let pages = vec![
        Ok(kakuyomu_chapter_page("いち")),
        Ok(bad),
        Ok(kakuyomu_chapter_page("さん")),
    ];
    let r = make_kakuyomu_novel("https://kakuyomu.jp/works/1", plan, pages);
    assert_eq!(
        r,
        Err(NovelError::InChapter(2, Box::new(NovelError::MalformedAnnotation)))
    );

    let plan = plan_kakuyomu_novel(&kakuyomu_main_page()).unwrap();
    let empty = String::from("<html><body><p>no body here</p></body></html>");
    let pages = vec![
        Ok(kakuyomu_chapter_page("いち")),
        Ok(kakuyomu_chapter_page("に")),
        Ok(empty),
    ];
    let r = make_kakuyomu_novel("https://kakuyomu.jp/works/1", plan, pages);
    assert_eq!(
        r,
        Err(NovelError::InChapter(
            3,
            Box::new(NovelError::ComponentMissing(NovelComponent::ChapterContent))
        ))
    );
}

fn syosetu_main_page() -> String {
    String::from("<html><body><ul id=\"head_nav\"><li><a href=\"/\">top</a></li><li><a href=\"/novelview/infotop/ncode/n1234ab/\">小説情報</a></li></ul><p class=\"novel_title\">連載小説</p><div class=\"novel_writername\"><a href=\"/x/\">書き手</a></div><div class=\"chapter_title\">章一</div><dl class=\"novel_sublist2\"><dd class=\"subtitle\"><a href=\"/n1234ab/1/\">第一話</a></dd><dt class=\"long_update\">2020/01/02 00:00</dt></dl><dl class=\"novel_sublist2\"><dd class=\"subtitle\"><a href=\"/n1234ab/2/\">第二話</a></dd><dt class=\"long_update\">2020/01/09 00:00<span title=\"2020/01/10 00:00 改稿\">（<u>改</u>）</span></dt></dl></body></html>")
}

fn syosetu_chapter_page() -> String {
    String::from("<html><body><div id=\"novel_honbun\"><p>一行目</p><p><br/></p><p>二行目</p></div></body></html>")
}

#[test]
fn syosetu_page_scans_with_info_link_and_edit_dates() {
    let plan = plan_syosetu_novel(&syosetu_main_page()).unwrap();
    assert_eq!(plan.title, "連載小説");
    assert_eq!(plan.author, "書き手");
    assert_eq!(plan.status, None);
    assert_eq!(plan.info_path, Some(String::from("/novelview/infotop/ncode/n1234ab/")));
    match &plan.contents {
        PlanContents::Sections(sections) => {
            assert_eq!(sections.len(), 1);
            assert_eq!(sections[0].name, "章一");
            assert_eq!(sections[0].chapters.len(), 2);
            assert_eq!(sections[0].chapters[0].date, "2020/01/02 00:00");
            assert_eq!(
                sections[0].chapters[1].date,
                "2020/01/09 00:00（2020/01/10 00:00 改稿）"
            );
            assert_eq!(sections[0].chapters[1].path, "/n1234ab/2/");
        },
        PlanContents::Chapters(_) => panic!("expected sections"),
    }
}

#[test]
fn syosetu_chapter_page_keeps_blank_lines() {
    let lines = fetch_page_content(&syosetu_chapter_page()).unwrap();
    assert_eq!(
        lines,
        vec![
            ContentLine::Line(vec![Content::Span(String::from("一行目"))]),
            ContentLine::Blank,
            ContentLine::Line(vec![Content::Span(String::from("二行目"))]),
        ]
    );
}

#[test]
fn syosetu_work_assembles_after_status_is_known() {
    let mut plan = plan_syosetu_novel(&syosetu_main_page()).unwrap();
    plan.set_status(NovelStatus::Finished);
    let pages = vec![Ok(syosetu_chapter_page()), Ok(syosetu_chapter_page())];
    let novel = make_syosetu_novel("https://ncode.syosetu.com/n1234ab/", plan, pages).unwrap();
    assert_eq!(novel.status, NovelStatus::Finished);
    match &novel.contents {
        NovelContents::Sections(sections) => {
            assert_eq!(sections.len(), 1);
            assert_eq!(sections[0].chapters.len(), 2);
            assert_eq!(sections[0].chapters[1].name, "第二話");
            assert_eq!(sections[0].chapters[1].order_num, 2);
        },
        NovelContents::Chapters(_) => panic!("expected sections"),
    }
}

#[test]
fn syosetu_page_without_body_is_missing_content() {
    let r = fetch_page_content("<html><body><p>elsewhere</p></body></html>");
    assert_eq!(r, Err(NovelError::ComponentMissing(NovelComponent::ChapterContent)));
}

#[test]
fn kakuyomu_flat_toc_assembles_a_flat_work() {
    let html = "<html><body><h1 id=\"workTitle\"><a>平坦</a></h1><span id=\"workAuthor-activityName\"><a>someone</a></span><div id=\"workInformationList\"><dl><dt>s</dt><dd>完結済</dd></dl></div><ol><li class=\"widget-toc-episode\"><a href=\"/works/2/episodes/1\"><span class=\"widget-toc-episode-titleLabel\">Only</span><time class=\"widget-toc-episode-datePublished\">2021年3月4日</time></a></li></ol></body></html>";
    let plan = plan_kakuyomu_novel(html).unwrap();
    assert!(plan.is_wf());
    match &plan.contents {
        PlanContents::Chapters(chapters) => {
            assert_eq!(chapters.len(), 1);
            assert_eq!(chapters[0].order_num, 1);
        },
        PlanContents::Sections(_) => panic!("expected a flat chapter list"),
    }
    let pages = vec![Ok(kakuyomu_chapter_page("ほんぶん"))];
    let novel = make_kakuyomu_novel("https://kakuyomu.jp/works/2", plan, pages).unwrap();
    assert_eq!(novel.status, NovelStatus::Finished);
    match &novel.contents {
        NovelContents::Chapters(chapters) => {
            assert_eq!(chapters.len(), 1);
            assert_eq!(chapters[0].name, "Only");
            assert_eq!(chapters[0].date, "二〇二一年三月四日");
        },
        NovelContents::Sections(_) => panic!("expected a flat chapter list"),
    }
}

#[test]
fn info_page_markers_decide_the_status() {
    let finished = "<html><body><div id=\"noveltype\">完結済</div></body></html>";
    assert_eq!(fetch_status_in_info(finished), Ok(NovelStatus::Finished));
    let running = "<html><body><span id=\"noveltype_notend\">連載中</span></body></html>";
    assert_eq!(fetch_status_in_info(running), Ok(NovelStatus::Running));
    let neither = "<html><body><p>nothing here</p></body></html>";
    assert_eq!(
        fetch_status_in_info(neither),
        Err(NovelError::ComponentMissing(NovelComponent::Status))
    );
}

#[test]
fn bad_selector_is_a_construction_time_error() {
    let root = kuchiki::parse_html().one("<html><body></body></html>");
    let traverser: TreeTraverser<u32> = TreeTraverser::new(root);
    let r = traverser.add_hook("p[", None, 0);
    match r {
        Err(TraverseError::CssSelectorCompilation(s)) => assert_eq!(s, "p["),
        Ok(_) => panic!("the selector must be refused"),
    }
}

#[test]
fn hooks_fire_in_document_order() {
    let root = kuchiki::parse_html().one(
        "<html><body><p>a</p><div>x</div><p>b</p></body></html>",
    );
    let traverser: TreeTraverser<u32> = TreeTraverser::new(root);
    let traverser = traverser.add_hook("p", None, 1).unwrap();
    let traverser = traverser.add_hook("div", None, 2).unwrap();
    let firings = traverser.traverse();
    let tags: Vec<u32> = firings.iter().map(|f| f.0).collect();
    assert_eq!(tags, vec![1, 2, 1]);
}

#[test]
fn anti_selector_suppresses_a_hook() {
    let root = kuchiki::parse_html().one(
        "<html><body><p>a</p><p class=\"blank\"></p><p>b</p></body></html>",
    );
    let traverser: TreeTraverser<u32> = TreeTraverser::new(root);
    let traverser = traverser.add_hook("p", Some("p.blank"), 1).unwrap();
    let firings = traverser.traverse();
    assert_eq!(firings.len(), 2);
}
