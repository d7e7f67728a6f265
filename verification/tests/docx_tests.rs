use mdmf::config::{Author, Config, Metadata, Source, StructureItem};
use mdmf::docx::render_docx;
use mdmf::layout::{build_manuscript, manuscript_word_total};

fn integration_config() -> Config {
    Config {
        metadata: Metadata {
            title: "Integration Test".into(), subtitle: None, byline: "Integration Author".into(),
            genre: None, short_title: "Integration".into(), last_name: "Author".into(),
            file_name: Some("integrated_output.docx".into()), story_type: Some("short_story".into()),
        },
        author: Author {
            legal_name: "Legal Integration".into(), pen_name: None,
            street_address: "123 Integration Blvd".into(),
            city_state_zip: "Integration City, IC 12345".into(), phone: "555-9999".into(),
            email: "integration@example.com".into(), website: None,
        },
        agent: None,
        structure: vec![StructureItem::Chapter {
            title: Some("The Content".into()), number: None, file: Some("content.md".into()), files: None,
        }],
    }
}

fn integration_sources() -> Vec<Source> {
    vec![Source {
        path: "content.md".into(),
        content: Some("Integration test content with ***bold-italic*** formatting.".into()),
    }]
}

fn texts_of(p: &docx_rs::Paragraph) -> String {
    let mut s = String::new();
    for c in &p.children {
        if let docx_rs::ParagraphChild::Run(r) = c {
            for rc in &r.children {
                if let docx_rs::RunChild::Text(t) = rc {
                    s.push_str(&t.text);
                }
            }
        }
    }
    s
}

#[test]
fn test_compile_manuscript_integration() {
    let config = integration_config();
    let sources = integration_sources();
    assert!(manuscript_word_total(&config, &sources).is_some());
    for blind in [false, true] {
        let m = build_manuscript(&config, &sources, blind);
        let doc = render_docx(&m);
        let mut out = std::io::Cursor::new(Vec::new());
        let res = doc.build().pack(&mut out);
        assert!(res.is_ok());
        let bytes = out.into_inner();
        assert!(bytes.len() > 4);
        assert_eq!(&bytes[0..2], b"PK");
    }
}

#[test]
fn rendered_body_follows_the_manuscript() {
    let config = integration_config();
    let sources = integration_sources();
    let m = build_manuscript(&config, &sources, false);
    let doc = render_docx(&m);
    let children = &doc.document.children;
    assert_eq!(children.len(), m.body.len());
    assert!(matches!(children[0], docx_rs::DocumentChild::Table(_)));
    let paras: Vec<String> = children
        .iter()
        .filter_map(|c| match c {
            docx_rs::DocumentChild::Paragraph(p) => Some(texts_of(p)),
            _ => None,
        })
        .collect();
    assert!(paras.contains(&"INTEGRATION TEST".to_string()));
    assert!(paras.contains(&"The Content".to_string()));
    assert_eq!(paras.last().unwrap(), "#  #  #");
    let content_para = paras.iter().find(|s| s.starts_with("Integration test content")).unwrap();
    assert!(content_para.contains("bold-italic"));
}

#[test]
fn line_feeds_are_dropped_from_texts() {
    let mut config = integration_config();
    config.metadata.title = "Two\nLines".into();
    let m = build_manuscript(&config, &integration_sources(), true);
    let doc = render_docx(&m);
    let found = doc.document.children.iter().any(|c| match c {
        docx_rs::DocumentChild::Paragraph(p) => texts_of(p) == "TWOLINES",
        _ => false,
    });
    assert!(found);
}

#[test]
fn rendered_formats_and_settings() {
    let config = integration_config();
    let m = build_manuscript(&config, &integration_sources(), false);
    let doc = render_docx(&m);
    let sp = &doc.document.section_property;
    assert_eq!(
        (sp.page_margin.top, sp.page_margin.left, sp.page_margin.bottom, sp.page_margin.right),
        (1440, 1440, 1440, 1440)
    );
    let (_, header) = sp.header.as_ref().unwrap();
    assert_eq!(header.children.len(), 1);
    let (_, first) = sp.first_header.as_ref().unwrap();
    assert_eq!(first.children.len(), 0);
    match &doc.document.children[0] {
        docx_rs::DocumentChild::Table(t) => {
            assert_eq!(t.rows.len(), 1);
            match &t.rows[0] {
                docx_rs::TableChild::TableRow(r) => assert_eq!(r.cells.len(), 2),
            }
        }
        _ => panic!("no title table"),
    }
    let mut saw_title = false;
    let mut saw_prose = false;
    for c in &doc.document.children {
        if let docx_rs::DocumentChild::Paragraph(p) = c {
            let text = texts_of(p);
            if text == "INTEGRATION TEST" {
                saw_title = true;
                assert!(p.property.alignment.is_some());
                if let docx_rs::ParagraphChild::Run(r) = &p.children[0] {
                    assert!(r.run_property.bold.is_some());
                    assert!(r.run_property.italic.is_none());
                }
            }
            if text.starts_with("Integration test content") {
                saw_prose = true;
                assert!(p.property.line_spacing.is_some());
                assert!(p.property.indent.is_some());
                let styled: Vec<(bool, bool)> = p
                    .children
                    .iter()
                    .filter_map(|c| match c {
                        docx_rs::ParagraphChild::Run(r) => {
                            Some((r.run_property.bold.is_some(), r.run_property.italic.is_some()))
                        }
                        _ => None,
                    })
                    .collect();
                assert_eq!(styled, vec![(false, false), (true, true), (false, false)]);
            }
        }
    }
    assert!(saw_title && saw_prose);
}
