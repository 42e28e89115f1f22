//! Tests of the table-of-contents model: section/chapter association,
//! order numbering, validation, and the small model helpers.

use novelgrab::novel::chapter_range;
use novelgrab::novel::contents_of;
use novelgrab::novel::kakuyomu::kakuyomu_plan_of;
use novelgrab::novel::kakuyomu::kakuyomu_status_of;
use novelgrab::novel::syosetu::syosetu_plan_of;
use novelgrab::novel::toc::process_toc_events;
use novelgrab::novel::toc::ChapterEntry;
use novelgrab::novel::toc::ChapterInfo;
use novelgrab::novel::toc::MainPageData;
use novelgrab::novel::toc::SectionInfo;
use novelgrab::novel::toc::TocEvent;
use novelgrab::novel::novel_utils::convert_num_string_to_ja;
use novelgrab::novel::Chapter;
use novelgrab::novel::NovelSite;
use novelgrab::novel::NovelStatus;
use novelgrab::novel::PlanContents;
use novelgrab::novel::FetchPolicy;
use novelgrab::NovelComponent;
use novelgrab::NovelError;

fn entry(name: &str, path: &str) -> TocEvent {
    TocEvent::Chapter(ChapterEntry {
        name: String::from(name),
        date: String::from("date"),
        path: String::from(path),
    })
}

fn scanned(events: Vec<TocEvent>) -> MainPageData {
    let mut data = process_toc_events(events);
    data.move_chapters_to_section();
    data
}

#[test]
fn two_sections_partition_three_chapters() {
    // A heading owns the chapters that follow it, until the next heading.
    let data = scanned(vec![
        TocEvent::Section(String::from("Part One")),
        entry("ch1", "/works/1/episodes/1"),
        entry("ch2", "/works/1/episodes/2"),
        TocEvent::Section(String::from("Part Two")),
        entry("ch3", "/works/1/episodes/3"),
    ]);
    assert_eq!(data.sections.len(), 2);
    assert_eq!(data.chapters.len(), 0);
    assert_eq!(data.sections[0].name, "Part One");
    assert_eq!(data.sections[1].name, "Part Two");
    let part_one: Vec<&str> = data.sections[0].chapters.iter().map(|c| c.name.as_str()).collect();
    assert_eq!(part_one, vec!["ch1", "ch2"]);
    assert_eq!(data.sections[0].chapters[0].order_num, 1);
    assert_eq!(data.sections[0].chapters[1].order_num, 2);
    let part_two: Vec<&str> = data.sections[1].chapters.iter().map(|c| c.name.as_str()).collect();
    assert_eq!(part_two, vec!["ch3"]);
    assert_eq!(data.sections[1].chapters[0].order_num, 3);
}

#[test]
fn chapters_before_first_heading_fall_to_first_section() {
    let data = scanned(vec![
        entry("early", "/a"),
        TocEvent::Section(String::from("One")),
        entry("inside", "/b"),
        TocEvent::Section(String::from("Two")),
        entry("later", "/c"),
    ]);
    assert_eq!(data.sections.len(), 2);
    let one: Vec<&str> = data.sections[0].chapters.iter().map(|c| c.name.as_str()).collect();
    assert_eq!(one, vec!["early", "inside"]);
    let two: Vec<&str> = data.sections[1].chapters.iter().map(|c| c.name.as_str()).collect();
    assert_eq!(two, vec!["later"]);
}

#[test]
fn no_headings_keeps_chapters_flat() {
    let data = scanned(vec![entry("a", "/a"), entry("b", "/b")]);
    assert_eq!(data.sections.len(), 0);
    assert_eq!(data.chapters.len(), 2);
    assert_eq!(data.chapters[0].order_num, 1);
    assert_eq!(data.chapters[1].order_num, 2);
}

#[test]
fn order_numbers_are_gap_free_across_headings() {
    let data = scanned(vec![
        TocEvent::Section(String::from("S1")),
        entry("a", "/a"),
        TocEvent::Section(String::from("S2")),
        entry("b", "/b"),
        entry("c", "/c"),
        TocEvent::Section(String::from("S3")),
        entry("d", "/d"),
    ]);
    let mut orders = Vec::new();
    for section in &data.sections {
        for chapter in &section.chapters {
            orders.push(chapter.order_num);
        }
    }
    assert_eq!(orders, vec![1, 2, 3, 4]);
}

#[test]
fn later_title_and_author_overwrite_earlier() {
    let data = scanned(vec![
        TocEvent::Title(String::from("first")),
        TocEvent::Author(String::from("a1")),
        TocEvent::Title(String::from("second")),
        TocEvent::Status(NovelStatus::Running),
        TocEvent::Status(NovelStatus::Finished),
    ]);
    assert_eq!(data.title, Some(String::from("second")));
    assert_eq!(data.author, Some(String::from("a1")));
    assert_eq!(data.status, Some(NovelStatus::Finished));
}

#[test]
fn empty_toc_is_missing_chapters() {
    // A table of contents with no sections and no chapters at all.
    let r = contents_of(Vec::new(), Vec::new());
    assert_eq!(r, Err(NovelError::ComponentMissing(NovelComponent::Chapter)));
}

#[test]
fn section_without_chapters_is_refused() {
    let sections = vec![SectionInfo { name: String::from("empty"), chapters: Vec::new() }];
    let r = contents_of(sections, Vec::new());
    assert_eq!(r, Err(NovelError::ComponentMissing(NovelComponent::ChapterUnderSection)));
}

fn info(name: &str, order_num: usize) -> ChapterInfo {
    ChapterInfo {
        name: String::from(name),
        date: String::from("d"),
        order_num,
        path: String::from("/p"),
    }
}

#[test]
fn flat_chapters_become_plan_body() {
    let chapters = vec![info("a", 1), info("b", 2)];
    let r = contents_of(Vec::new(), chapters.clone());
    assert_eq!(r, Ok(PlanContents::Chapters(chapters)));
}

#[test]
fn kakuyomu_validation_reports_missing_fields_in_order() {
    let mut data = process_toc_events(Vec::new());
    data.move_chapters_to_section();
    let r = kakuyomu_plan_of(data);
    assert_eq!(r, Err(NovelError::ComponentMissing(NovelComponent::Title)));

    let data = scanned(vec![TocEvent::Title(String::from("t"))]);
    assert_eq!(
        kakuyomu_plan_of(data),
        Err(NovelError::ComponentMissing(NovelComponent::Author))
    );

    let data = scanned(vec![
        TocEvent::Title(String::from("t")),
        TocEvent::Author(String::from("a")),
    ]);
    assert_eq!(
        kakuyomu_plan_of(data),
        Err(NovelError::ComponentMissing(NovelComponent::Status))
    );

    let data = scanned(vec![
        TocEvent::Title(String::from("t")),
        TocEvent::Author(String::from("a")),
        TocEvent::Status(NovelStatus::Running),
    ]);
    assert_eq!(
        kakuyomu_plan_of(data),
        Err(NovelError::ComponentMissing(NovelComponent::Chapter))
    );
}

#[test]
fn syosetu_validation_wants_the_info_link() {
    let data = scanned(vec![
        TocEvent::Title(String::from("t")),
        TocEvent::Author(String::from("a")),
        entry("c", "/c"),
    ]);
    assert_eq!(
        syosetu_plan_of(data),
        Err(NovelError::ComponentMissing(NovelComponent::InfoPath))
    );

    let data = scanned(vec![
        TocEvent::Title(String::from("t")),
        TocEvent::Author(String::from("a")),
        TocEvent::InfoLink(String::from("/info")),
        entry("c", "/c"),
    ]);
    let plan = syosetu_plan_of(data).unwrap();
    assert_eq!(plan.info_path, Some(String::from("/info")));
    assert_eq!(plan.status, None);
}

#[test]
fn kakuyomu_status_vocabulary_is_exact() {
    assert_eq!(kakuyomu_status_of(&String::from("連載中")), Some(NovelStatus::Running));
    assert_eq!(kakuyomu_status_of(&String::from("完結済")), Some(NovelStatus::Finished));
    assert_eq!(kakuyomu_status_of(&String::from("連載中 ")), None);
    assert_eq!(kakuyomu_status_of(&String::from("anything")), None);
}

#[test]
fn digits_transliterate_and_other_text_is_kept() {
    assert_eq!(convert_num_string_to_ja("2020"), "二〇二〇");
    assert_eq!(convert_num_string_to_ja("123456789"), "一二三四五六七八九");
    assert_eq!(convert_num_string_to_ja("2020年1月2日"), "二〇二〇年一月二日");
    assert_eq!(convert_num_string_to_ja(""), "");
}

#[test]
fn site_dispatch_by_host_and_path() {
    assert_eq!(
        NovelSite::is_a_novel(Some("kakuyomu.jp"), "/works/1177354054880238351"),
        Some(NovelSite::Kakuyomu)
    );
    assert_eq!(NovelSite::is_a_novel(Some("kakuyomu.jp"), "/users/x"), None);
    assert_eq!(
        NovelSite::is_a_novel(Some("ncode.syosetu.com"), "/n1234ab/"),
        Some(NovelSite::Syosetu)
    );
    assert_eq!(NovelSite::is_a_novel(Some("example.com"), "/works/1"), None);
    assert_eq!(NovelSite::is_a_novel(None, "/works/1"), None);
}

#[test]
fn fetch_policy_is_per_source() {
    assert_eq!(NovelSite::Kakuyomu.fetch_policy(), FetchPolicy::Concurrent);
    assert_eq!(NovelSite::Syosetu.fetch_policy(), FetchPolicy::Sequential);
}

#[test]
fn absolute_addresses_per_source() {
    assert_eq!(
        novelgrab::novel::kakuyomu::make_uri("/works/1"),
        "https://kakuyomu.jp/works/1"
    );
    assert_eq!(
        novelgrab::novel::syosetu::make_uri("/n1234ab/2/"),
        "https://ncode.syosetu.com/n1234ab/2/"
    );
    assert_eq!(
        novelgrab::novel::syosetu::make_uri("https://elsewhere.example/x"),
        "https://elsewhere.example/x"
    );
}

#[test]
fn chapter_range_finds_min_and_max() {
    let chapters = vec![
        Chapter {
            name: String::from("a"),
            date: String::from("d"),
            order_num: 4,
            content: Vec::new(),
        },
        Chapter {
            name: String::from("b"),
            date: String::from("d"),
            order_num: 2,
            content: Vec::new(),
        },
        Chapter {
            name: String::from("c"),
            date: String::from("d"),
            order_num: 9,
            content: Vec::new(),
        },
    ];
    assert_eq!(chapter_range(&chapters), (2, 9));
}

#[test]
fn plans_from_the_scanner_are_well_formed() {
    let data = scanned(vec![
        TocEvent::Title(String::from("t")),
        TocEvent::Author(String::from("a")),
        TocEvent::Status(NovelStatus::Finished),
        TocEvent::Section(String::from("s")),
        entry("c1", "/1"),
        entry("c2", "/2"),
    ]);
    let plan = kakuyomu_plan_of(data).unwrap();
    assert!(plan.is_wf());
}

#[test]
fn a_gap_in_order_numbers_is_not_well_formed() {
    let plan = novelgrab::novel::NovelPlan {
        title: String::from("t"),
        author: String::from("a"),
        status: Some(NovelStatus::Running),
        info_path: None,
        contents: PlanContents::Chapters(vec![info("a", 1), info("b", 3)]),
    };
    assert!(!plan.is_wf());
    let empty_section = novelgrab::novel::NovelPlan {
        title: String::from("t"),
        author: String::from("a"),
        status: Some(NovelStatus::Running),
        info_path: None,
        contents: PlanContents::Sections(vec![SectionInfo {
            name: String::from("s"),
            chapters: Vec::new(),
        }]),
    };
    assert!(!empty_section.is_wf());
}

#[test]
fn status_texts_and_stamp() {
    assert_eq!(NovelStatus::Running.status_text(), "連載中");
    assert_eq!(NovelStatus::Finished.status_text(), "完結済");
    assert_eq!(NovelStatus::Running.kan_stamp(), "");
    assert_eq!(NovelStatus::Finished.kan_stamp(), " (完)");
}
