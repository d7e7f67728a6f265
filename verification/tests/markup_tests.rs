use mdmf::markup::{apply_formatting, is_heading_line, join_text_events, paragraphs_of_text, runs_between_markers, runs_of_line, smart_punctuation, words_of_text};
use mdmf::model::{Block, Piece, TextRun};

fn run_text(r: &TextRun) -> String {
    let mut s = String::new();
    for p in &r.pieces {
        if let Piece::Text(t) = p {
            s.push_str(t);
        }
    }
    s
}

#[test]
fn test_smart_punctuation() {
    let run = apply_formatting("\"Hello world\" --- and a dash", false, false);
    assert_eq!(run_text(&run), "\u{201c}Hello world\u{201d} \u{2014} and a dash");
    assert!(!run.bold && !run.italic);
}

#[test]
fn smart_punctuation_changes_quotes_and_dashes() {
    assert_eq!(smart_punctuation("plain words"), "plain words");
    assert_eq!(smart_punctuation("'single' -- en"), "\u{2018}single\u{2019} \u{2013} en");
    assert_ne!(smart_punctuation("\"q\""), "\"q\"");
}

#[test]
fn heading_lines() {
    assert!(is_heading_line("# Title"));
    assert!(is_heading_line("###### Six"));
    assert!(is_heading_line("##\tTab"));
    assert!(!is_heading_line("####### Seven"));
    assert!(!is_heading_line("#NoSpace"));
    assert!(!is_heading_line("#"));
    assert!(!is_heading_line("Text # not heading"));
}

#[test]
fn emphasis_markers() {
    let runs = runs_of_line("plain **bold** mid *it* and _it2_ ***both*** end");
    let got: Vec<(String, bool, bool)> = runs.iter().map(|r| (run_text(r), r.bold, r.italic)).collect();
    assert_eq!(got.len(), 9);
    assert_eq!((got[1].1, got[1].2), (true, false));
    assert_eq!(got[1].0, "bold");
    assert_eq!((got[3].1, got[3].2), (false, true));
    assert_eq!(got[3].0, "it");
    assert_eq!((got[5].1, got[5].2), (false, true));
    assert_eq!(got[5].0, "it2");
    assert_eq!((got[7].1, got[7].2), (true, true));
    assert_eq!(got[7].0, "both");
    assert_eq!((got[8].1, got[8].2), (false, false));
    assert_eq!(got[8].0, " end");
    let texts: Vec<&str> = got.iter().map(|g| g.0.as_str()).collect();
    assert_eq!(texts, vec!["plain ", "bold", " mid ", "it", " and ", "it2", " ", "both", " end"]);
}

#[test]
fn unclosed_marker_keeps_style_to_the_end() {
    let runs = runs_of_line("a *b");
    assert_eq!(runs.len(), 2);
    assert!(!runs[0].italic);
    assert!(runs[1].italic);
    assert_eq!(run_text(&runs[1]), "b");
    let runs = runs_of_line("****");
    assert_eq!(runs.len(), 0);
}

#[test]
fn paragraphs_skip_blank_and_heading_lines() {
    let blocks = paragraphs_of_text("# Heading\n\nFirst line.\r\n   \n> Quoted.\nLast");
    assert_eq!(blocks.len(), 3);
    match &blocks[0] {
        Block::Para(p) => {
            assert_eq!(p.format.line_spacing, Some(480));
            assert_eq!(p.format.indent.unwrap().first_line, Some(720));
            assert_eq!(run_text(&p.runs[0]), "First line.");
        }
        _ => panic!("not a paragraph"),
    }
    match &blocks[1] {
        Block::Para(p) => {
            let i = p.format.indent.unwrap();
            assert_eq!((i.left, i.first_line, i.end), (Some(720), None, Some(720)));
            assert_eq!(run_text(&p.runs[0]), "Quoted.");
        }
        _ => panic!("not a paragraph"),
    }
    assert_eq!(paragraphs_of_text("").len(), 0);
}

#[test]
fn word_counts_skip_headings() {
    let mut content = "Word ".repeat(60);
    content.push_str("\n# Ignored Header\n# Ignored comment\n");
    assert_eq!(words_of_text(&content), 60);
    assert_eq!(words_of_text("  one\ttwo\u{a0}three  \n\n#nospace counts\n"), 5);
    assert_eq!(words_of_text(""), 0);
}

#[test]
fn paragraph_lines_are_counted_lines() {
    let text = "# H\nalpha beta\n\n> gamma\n   \ndelta";
    let paras = paragraphs_of_text(text);
    assert_eq!(paras.len(), 3);
    assert_eq!(words_of_text(text), 5);
}

#[test]
fn text_events_are_joined_in_order() {
    let events = vec![Some("a".to_string()), None, Some("bc".to_string()), None];
    assert_eq!(join_text_events(&events), "abc");
    assert_eq!(join_text_events(&vec![]), "");
    assert_eq!(join_text_events(&vec![None, None]), "");
}

#[test]
fn runs_follow_the_markers_between_them() {
    let gaps: Vec<String> = vec!["a".into(), "b".into(), "".into(), "c".into()];
    let marks: Vec<String> = vec!["**".into(), "_".into(), "***".into()];
    let runs = runs_between_markers(&gaps, &marks);
    let got: Vec<(String, bool, bool)> = runs.iter().map(|r| (run_text(r), r.bold, r.italic)).collect();
    assert_eq!(
        got,
        vec![
            ("a".to_string(), false, false),
            ("b".to_string(), true, false),
            ("c".to_string(), false, false),
        ]
    );
}

#[test]
fn spaces_beside_markers_are_kept() {
    let runs = runs_of_line("It has **bold** and *italic* text.");
    let texts: Vec<String> = runs.iter().map(run_text).collect();
    assert_eq!(texts, vec!["It has ", "bold", " and ", "italic", " text."]);
    assert_eq!(run_text(&apply_formatting(" and ", false, false)), " and ");
    assert_eq!(run_text(&apply_formatting("  ", true, false)), "  ");
    let runs = runs_of_line("Integration test content with ***bold-italic*** formatting.");
    let got: Vec<(String, bool, bool)> = runs.iter().map(|r| (run_text(r), r.bold, r.italic)).collect();
    assert_eq!(
        got,
        vec![
            ("Integration test content with ".to_string(), false, false),
            ("bold-italic".to_string(), true, true),
            (" formatting.".to_string(), false, false),
        ]
    );
    let joined: String = runs_of_line("a \"q\" *b* c").iter().map(run_text).collect();
    assert_eq!(joined, "a \u{201c}q\u{201d} b c");
}
