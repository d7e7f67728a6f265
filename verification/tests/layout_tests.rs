use mdmf::config::{find_source, Agent, Author, Config, Metadata, Source, StructureItem};
use mdmf::layout::{
    append_file_content, build_manuscript, calculate_word_count, create_title_page, kind_of_lowercased,
    manuscript_word_total, output_file, process_chapter, process_text_item, referenced_files,
    setup_header, story_kind, StoryKind,
};
use mdmf::model::{Align, Block, BreakKind, Para, Piece, TextRun};

fn run_text(r: &TextRun) -> String {
    let mut s = String::new();
    for p in &r.pieces {
        if let Piece::Text(t) = p {
            s.push_str(t);
        }
    }
    s
}

fn para_text(p: &Para) -> String {
    p.runs.iter().map(run_text).collect::<Vec<_>>().join("|")
}

fn empty_metadata() -> Metadata {
    Metadata {
        title: "".into(), subtitle: None, byline: "".into(),
        genre: None, short_title: "".into(), last_name: "".into(),
        file_name: None, story_type: None,
    }
}

fn empty_author() -> Author {
    Author {
        legal_name: "".into(), pen_name: None, street_address: "".into(),
        city_state_zip: "".into(), phone: "".into(), email: "".into(),
        website: None,
    }
}

fn create_dummy_config() -> Config {
    Config {
        metadata: Metadata {
            title: "Test Title".into(), subtitle: None, byline: "Test Byline".into(),
            genre: None, short_title: "Test Short Title".into(), last_name: "TestLast".into(),
            file_name: Some("test_output.docx".into()), story_type: Some("novel".into()),
        },
        author: Author {
            legal_name: "Test Legal Name".into(), pen_name: None, street_address: "123 Test St".into(),
            city_state_zip: "Test City, TS 12345".into(), phone: "555-5555".into(), email: "test@test.com".into(),
            website: None,
        },
        agent: None,
        structure: vec![],
    }
}

#[test]
fn test_calculate_word_count() {
    let mut content = "Word ".repeat(60);
    content.push_str("\n# Ignored Header\n# Ignored comment\n");
    let sources = vec![Source { path: "test_chapter.md".into(), content: Some(content) }];
    let config = Config {
        metadata: empty_metadata(),
        author: empty_author(),
        agent: None,
        structure: vec![StructureItem::Chapter {
            title: None, number: None, file: Some("test_chapter.md".into()), files: None,
        }],
    };
    let count = calculate_word_count(&config, &sources);
    assert_eq!(count, 100); // 60 words rounds to nearest 100, which is 100
}

#[test]
fn test_setup_header() {
    let config = create_dummy_config();
    let normal = setup_header(&config.metadata.last_name, &config.metadata.short_title, false);
    assert_eq!(normal.format.align, Some(Align::Right));
    assert_eq!(para_text(&normal), "TestLast | |Test Short Title| | |1");
    assert!(normal.runs[1].italic);
    assert!(matches!(normal.runs[3].pieces[1], Piece::PageInstr));
    let blind = setup_header(&config.metadata.last_name, &config.metadata.short_title, true);
    assert_eq!(para_text(&blind), "Test Short Title| | |1");
}

#[test]
fn test_create_title_page() {
    let config = create_dummy_config();
    let normal = create_title_page(&config, StoryKind::Novel, 50000, false);
    assert_eq!(normal.len(), 1 + 8 + 1 + 1 + 1);
    match &normal[0] {
        Block::ContactTable(left, right) => {
            assert_eq!(
                para_text(left),
                "Test Legal Name||123 Test St||Test City, TS 12345||555-5555||test@test.com"
            );
            assert_eq!(para_text(right), "Approx. 50,000 words");
            assert_eq!(right.format.align, Some(Align::Right));
        }
        _ => panic!("no contact table"),
    }
    match &normal[9] {
        Block::Para(p) => {
            assert_eq!(para_text(p), "TEST TITLE");
            assert!(p.runs[0].bold);
        }
        _ => panic!("no title"),
    }
    match &normal[10] {
        Block::Para(p) => assert_eq!(para_text(p), "by|Test Byline"),
        _ => panic!("no byline"),
    }
    match &normal[11] {
        Block::Para(p) => assert!(matches!(p.runs[0].pieces[0], Piece::Break(BreakKind::Page))),
        _ => panic!("no page break"),
    }
    let blind = create_title_page(&config, StoryKind::Novel, 50000, true);
    assert_eq!(blind.len(), normal.len() - 1);
    match &blind[0] {
        Block::ContactTable(left, _) => assert!(left.runs.is_empty()),
        _ => panic!("no contact table"),
    }
    let short = create_title_page(&config, StoryKind::ShortStory, 1234, false);
    assert_eq!(short.len(), 1 + 17 + 1 + 1 + 3);
}

fn chapter_sources() -> Vec<Source> {
    vec![
        Source { path: "ch1.md".into(), content: Some("This is chapter one.\nIt has **bold** and *italic* text.".into()) },
        Source { path: "text1.md".into(), content: Some("This is some unstructured text.".into()) },
    ]
}

#[test]
fn test_process_chapter_and_text() {
    let sources = chapter_sources();
    let chapter = StructureItem::Chapter {
        title: Some("Chapter One".into()), number: Some(1), file: Some("ch1.md".into()), files: None,
    };
    let text_item = StructureItem::Text { file: Some("text1.md".into()), files: None };
    let doc = process_chapter(&sources, &chapter);
    assert_eq!(doc.len(), 4);
    match &doc[0] {
        Block::Para(p) => {
            assert_eq!(para_text(p), "Chapter 1: Chapter One");
            assert!(p.runs[0].bold);
            assert_eq!(p.format.align, Some(Align::Center));
        }
        _ => panic!("no heading"),
    }
    match &doc[3] {
        Block::Para(p) => {
            let got: Vec<(String, bool, bool)> = p.runs.iter().map(|r| (run_text(r), r.bold, r.italic)).collect();
            assert_eq!(
                got,
                vec![
                    ("It has ".to_string(), false, false),
                    ("bold".to_string(), true, false),
                    (" and ".to_string(), false, false),
                    ("italic".to_string(), false, true),
                    (" text.".to_string(), false, false),
                ]
            );
        }
        _ => panic!("no paragraph"),
    }
    let text = process_text_item(&sources, &text_item);
    assert_eq!(text.len(), 1);
    // each function handles only its own kind of entry
    assert_eq!(process_chapter(&sources, &text_item).len(), 0);
    assert_eq!(process_text_item(&sources, &chapter).len(), 0);
}

#[test]
fn test_append_file_content() {
    let sources = vec![Source {
        path: "append.md".into(),
        content: Some("Content to append.\n> Blockquote text.\nWith a second line.".into()),
    }];
    let doc = append_file_content(&sources, &"append.md".to_string());
    assert_eq!(doc.len(), 3);
    // a missing file is skipped
    let missing = append_file_content(&sources, &"missing.md".to_string());
    assert_eq!(missing.len(), 0);
}

#[test]
fn chapter_headings() {
    let sources: Vec<Source> = vec![];
    let only_number = StructureItem::Chapter { title: None, number: Some(12), file: None, files: None };
    match &process_chapter(&sources, &only_number)[0] {
        Block::Para(p) => assert_eq!(para_text(p), "Chapter 12"),
        _ => panic!(),
    }
    let only_title = StructureItem::Chapter { title: Some("Prologue".into()), number: None, file: None, files: None };
    match &process_chapter(&sources, &only_title)[0] {
        Block::Para(p) => assert_eq!(para_text(p), "Prologue"),
        _ => panic!(),
    }
    let neither = StructureItem::Chapter { title: None, number: None, file: None, files: None };
    assert_eq!(process_chapter(&sources, &neither).len(), 0);
}

#[test]
fn scenes_are_separated_by_scene_breaks() {
    let sources = vec![
        Source { path: "a.md".into(), content: Some("A one.\nA two.".into()) },
        Source { path: "b.md".into(), content: Some("B one.".into()) },
        Source { path: "c.md".into(), content: None },
    ];
    let item = StructureItem::Text {
        file: None,
        files: Some(vec!["a.md".into(), "b.md".into(), "c.md".into()]),
    };
    let blocks = process_text_item(&sources, &item);
    let texts: Vec<String> = blocks
        .iter()
        .map(|b| match b { Block::Para(p) => para_text(p), _ => panic!() })
        .collect();
    assert_eq!(texts, vec!["A one.", "A two.", "#", "B one.", "#"]);
}

#[test]
fn story_kinds() {
    assert_eq!(story_kind(&None), StoryKind::Novel);
    assert_eq!(story_kind(&Some("Novel".into())), StoryKind::Novel);
    assert_eq!(story_kind(&Some("SHORT_STORY".into())), StoryKind::ShortStory);
    assert_eq!(story_kind(&Some("novella".into())), StoryKind::Other);
}

fn structured_config(story_type: &str) -> Config {
    let mut c = create_dummy_config();
    c.metadata.story_type = Some(story_type.into());
    c.structure = vec![
        StructureItem::Chapter { title: Some("Prologue".into()), number: None, file: Some("ch1.md".into()), files: None },
        StructureItem::Part {
            title: "Part One: Echoes".into(),
            content: vec![
                StructureItem::Chapter { title: None, number: Some(1), file: Some("text1.md".into()), files: None },
                StructureItem::Text { file: Some("text1.md".into()), files: None },
            ],
        },
    ];
    c
}

#[test]
fn manuscript_structure_and_separators() {
    let sources = chapter_sources();
    let config = structured_config("novel");
    // the text entry inside the part is not laid out, so neither read nor counted
    assert_eq!(referenced_files(&config), vec!["ch1.md", "text1.md"]);
    assert_eq!(manuscript_word_total(&config, &sources), Some(10 + 5));
    let m = build_manuscript(&config, &sources, false);
    let texts: Vec<String> = m
        .body
        .iter()
        .map(|b| match b { Block::Para(p) => para_text(p), Block::ContactTable(_, r) => para_text(r) })
        .collect();
    // title page: table, 8 blank lines, title, byline, page break
    assert_eq!(texts[0], "Approx. 0 words");
    assert_eq!(texts[9], "TEST TITLE");
    let body: Vec<&str> = texts[12..].iter().map(|s| s.as_str()).collect();
    assert_eq!(
        body,
        vec![
            "Prologue", "", "This is chapter one.", texts[15].as_str(),
            "", // page break before the part
            "PART ONE: ECHOES", "",
            "Chapter 1", "", "This is some unstructured text.",
            "", // page break between the part's entries; the text entry gives nothing there
            "", "", "#  #  #",
        ]
    );
    let short = build_manuscript(&structured_config("short_story"), &sources, true);
    assert_eq!(short.body.len(), 1 + 17 + 1 + 3 + 14);
}

#[test]
fn output_file_name() {
    let mut c = create_dummy_config();
    assert_eq!(output_file(&c), "test_output.docx");
    c.metadata.file_name = None;
    assert_eq!(output_file(&c), "manuscript.docx");
}

#[test]
fn agent_is_kept_in_config() {
    let mut c = create_dummy_config();
    c.agent = Some(Agent {
        name: "John Agentman".into(), agency: "Best Words".into(), street_address: "456 Row".into(),
        city_state_zip: "NY".into(), phone: "555".into(), email: "j@x".into(),
    });
    assert!(c.agent.is_some());
}

#[test]
fn blind_mode_leaves_out_only_the_author() {
    let sources = chapter_sources();
    let config = structured_config("novel");
    let n = build_manuscript(&config, &sources, false);
    let b = build_manuscript(&config, &sources, true);
    assert_eq!(n.header.runs.len(), b.header.runs.len() + 1);
    assert_eq!(run_text(&n.header.runs[0]), "TestLast | ");
    assert_eq!(n.body.len(), b.body.len() + 1);
    let text = |blocks: &Vec<Block>, i: usize| match &blocks[i] {
        Block::Para(p) => para_text(p),
        Block::ContactTable(l, r) => format!("{}/{}", para_text(l), para_text(r)),
    };
    assert_eq!(text(&b.body, 0), "/Approx. 0 words");
    assert_eq!(text(&n.body, 10), "by|Test Byline");
    for i in 1..10 {
        assert_eq!(text(&n.body, i), text(&b.body, i));
    }
    for i in 10..b.body.len() {
        assert_eq!(text(&n.body, i + 1), text(&b.body, i));
    }
    for blocks in [&b.body] {
        for i in 0..blocks.len() {
            let t = text(blocks, i);
            assert!(!t.contains("Test Legal Name") && !t.contains("TestLast") && !t.contains("Test Byline"));
        }
    }
}

#[test]
fn lower_cased_kind_names() {
    assert_eq!(kind_of_lowercased(&"novel".to_string()), StoryKind::Novel);
    assert_eq!(kind_of_lowercased(&"short_story".to_string()), StoryKind::ShortStory);
    assert_eq!(kind_of_lowercased(&"Novel".to_string()), StoryKind::Other);
    assert_eq!(kind_of_lowercased(&"".to_string()), StoryKind::Other);
}

#[test]
fn sources_are_found_by_path() {
    let sources = vec![
        Source { path: "a.md".into(), content: Some("first".into()) },
        Source { path: "b.md".into(), content: None },
        Source { path: "a.md".into(), content: Some("second".into()) },
    ];
    assert_eq!(find_source(&sources, &"a.md".to_string()), Some(&"first".to_string()));
    assert_eq!(find_source(&sources, &"b.md".to_string()), None);
    assert_eq!(find_source(&sources, &"c.md".to_string()), None);
}

#[test]
fn short_story_with_a_space() {
    assert_eq!(story_kind(&Some("Short Story".into())), StoryKind::ShortStory);
    assert_eq!(story_kind(&Some("short story".into())), StoryKind::ShortStory);
    assert_eq!(kind_of_lowercased(&"short story".to_string()), StoryKind::ShortStory);
}

#[test]
fn part_title_stands_on_its_own_page() {
    let sources = chapter_sources();
    let mut c = create_dummy_config();
    c.structure = vec![StructureItem::Part {
        title: "Part One".into(),
        content: vec![StructureItem::Chapter { title: Some("Start".into()), number: None, file: None, files: None }],
    }];
    let m = build_manuscript(&c, &sources, false);
    let body = &m.body[12..];
    match &body[0] {
        Block::Para(p) => assert_eq!(para_text(p), "PART ONE"),
        _ => panic!(),
    }
    match &body[1] {
        Block::Para(p) => assert!(matches!(p.runs[0].pieces[0], Piece::Break(BreakKind::Page))),
        _ => panic!("no page break after the part title"),
    }
    match &body[2] {
        Block::Para(p) => assert_eq!(para_text(p), "Start"),
        _ => panic!(),
    }
}

#[test]
fn word_count_covers_only_laid_out_files() {
    let sources = vec![
        Source { path: "a.md".into(), content: Some("one two".into()) },
        Source { path: "b.md".into(), content: Some("three four five".into()) },
        Source { path: "c.md".into(), content: Some("six".into()) },
    ];
    let mut c = create_dummy_config();
    c.structure = vec![
        StructureItem::Chapter { title: None, number: None, file: Some("a.md".into()), files: Some(vec!["b.md".into()]) },
        StructureItem::Part {
            title: "P".into(),
            content: vec![StructureItem::Text { file: Some("c.md".into()), files: None }],
        },
        StructureItem::Text { file: None, files: Some(vec!["b.md".into(), "c.md".into()]) },
    ];
    assert_eq!(referenced_files(&c), vec!["a.md", "b.md", "c.md"]);
    assert_eq!(manuscript_word_total(&c, &sources), Some(2 + 3 + 1));
}

#[test]
fn agent_block_on_the_title_page() {
    let mut c = create_dummy_config();
    c.agent = Some(Agent {
        name: "John Agentman".into(), agency: "Best Words".into(), street_address: "456 Row".into(),
        city_state_zip: "New York, NY".into(), phone: "555-0456".into(), email: "j@x.lit".into(),
    });
    let page = create_title_page(&c, StoryKind::Novel, 0, false);
    match &page[0] {
        Block::ContactTable(left, _) => assert_eq!(
            para_text(left),
            "Test Legal Name||123 Test St||Test City, TS 12345||555-5555||test@test.com|||John Agentman||Best Words||456 Row||New York, NY||555-0456||j@x.lit"
        ),
        _ => panic!("no contact table"),
    }
    let blind = create_title_page(&c, StoryKind::Novel, 0, true);
    match &blind[0] {
        Block::ContactTable(left, _) => assert!(left.runs.is_empty()),
        _ => panic!("no contact table"),
    }
}

#[test]
fn blind_manuscript_ignores_the_author() {
    let sources = chapter_sources();
    let a = structured_config("novel");
    let mut b = structured_config("novel");
    b.author.legal_name = "Someone Else".into();
    b.metadata.last_name = "Else".into();
    b.metadata.byline = "S. Else".into();
    b.agent = Some(Agent {
        name: "N".into(), agency: "A".into(), street_address: "S".into(),
        city_state_zip: "C".into(), phone: "P".into(), email: "E".into(),
    });
    let ma = build_manuscript(&a, &sources, true);
    let mb = build_manuscript(&b, &sources, true);
    assert_eq!(ma.body.len(), mb.body.len());
    assert_eq!(para_text(&ma.header), para_text(&mb.header));
}

#[test]
fn missing_and_empty_files_count_nothing() {
    let mut c = create_dummy_config();
    c.structure = vec![StructureItem::Text {
        file: None,
        files: Some(vec!["a.md".into(), "gone.md".into(), "empty.md".into()]),
    }];
    let sources = vec![
        Source { path: "a.md".into(), content: Some("one two".into()) },
        Source { path: "gone.md".into(), content: None },
        Source { path: "empty.md".into(), content: Some("".into()) },
    ];
    assert_eq!(manuscript_word_total(&c, &sources), Some(2));
}
