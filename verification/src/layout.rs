//! How a manuscript is laid out: the page header, the title page, parts,
//! chapters, scenes and the closing mark, following standard manuscript
//! format.
use vstd::prelude::*;
use crate::chars::{decimal, push_decimal, push_str};
use crate::config::{find_source, source_text, Agent, Author, Config, Source, StructureItem};
use crate::markup::{paragraphs_of_text, strings_view, text_paragraphs, text_words, words_of_text};
use crate::model::{
    aligned, append_blocks, blocks_view, break_run, break_run_view, empty_para, para, para_of_run,
    para_view, plain, plain_format, push_block, push_piece, push_run, runs_view, text_run,
    text_run_view, Align, Block, BlockView, BreakKind, FieldKind, Manuscript, ManuscriptView,
    ParaFormat, ParaView, Piece, PieceView, RunView, TextRun,
};
use crate::numbers::{format_number, grouped, round_to_hundred, round_word_count};

verus! {

/// What `str::to_lowercase` returns for `s`.
pub uninterp spec fn lowercase(s: Seq<char>) -> Seq<char>;

/// What `str::to_uppercase` returns for `s`.
pub uninterp spec fn uppercase(s: Seq<char>) -> Seq<char>;

/// `str::to_lowercase`. Claims: the result is `lowercase` of the argument.
#[verifier::external_body]
fn to_lowercase(s: &str) -> (r: String)
    ensures
        r@ == lowercase(s@),
{
    s.to_lowercase()
}

/// `str::to_uppercase`. Claims: the result is `uppercase` of the argument.
#[verifier::external_body]
fn to_uppercase(s: &str) -> (r: String)
    ensures
        r@ == uppercase(s@),
{
    s.to_uppercase()
}

/// The kind of story, which decides page breaks and title-page spacing.
#[derive(Clone, Copy, PartialEq, Eq, Structural, Debug)]
pub enum StoryKind {
    Novel,
    ShortStory,
    Other,
}

/// The story kind a lower-cased `story_type` names.
pub open spec fn kind_named(lc: Seq<char>) -> StoryKind {
    if lc == "novel"@ {
        StoryKind::Novel
    } else if lc == "short_story"@ || lc == "short story"@ {
        StoryKind::ShortStory
    } else {
        StoryKind::Other
    }
}

/// The story kind a `story_type` names, compared without regard to case;
/// an absent `story_type` means a novel.
pub open spec fn story_kind_of(story_type: Option<String>) -> StoryKind {
    match story_type {
        Some(s) => kind_named(lowercase(s@)),
        None => StoryKind::Novel,
    }
}

/// The story kind a lower-cased story type names: `novel`, `short_story`
/// or `short story`, or another.
pub fn kind_of_lowercased(lc: &String) -> (k: StoryKind)
    ensures
        k == kind_named(lc@),
{
    let novel = "novel".to_owned();
    let short_story = "short_story".to_owned();
    let short_story_spaced = "short story".to_owned();
    if *lc == novel {
        StoryKind::Novel
    } else if *lc == short_story || *lc == short_story_spaced {
        StoryKind::ShortStory
    } else {
        StoryKind::Other
    }
}

/// The story kind of a manuscript configuration.
pub fn story_kind(story_type: &Option<String>) -> (k: StoryKind)
    ensures
        k == story_kind_of(*story_type),
{
    match story_type {
        Some(s) => kind_of_lowercased(&to_lowercase(s.as_str())),
        None => StoryKind::Novel,
    }
}

/// A paragraph with no runs.
pub open spec fn blank(format: ParaFormat) -> BlockView {
    BlockView::Para(para_view(format, seq![]))
}

/// A paragraph holding only a page break.
pub open spec fn page_break() -> BlockView {
    BlockView::Para(para_view(plain_format(), seq![break_run_view(BreakKind::Page)]))
}

/// What stands between two parts, chapters or texts: a page break in a
/// novel, a blank line in a short story, nothing otherwise.
pub open spec fn separator(kind: StoryKind) -> Seq<BlockView> {
    match kind {
        StoryKind::Novel => seq![page_break()],
        StoryKind::ShortStory => seq![blank(plain_format())],
        StoryKind::Other => seq![],
    }
}

/// The double-spaced format the scene breaks and closing mark use.
pub open spec fn double_spaced(align: Option<Align>) -> ParaFormat {
    ParaFormat { align, line_spacing: Some(480), indent: None }
}

/// The scene break between the scenes of a chapter: a centred `#`.
pub open spec fn scene_break() -> BlockView {
    BlockView::Para(
        para_view(double_spaced(Some(Align::Center)), seq![text_run_view(seq!['#'], false, false)]),
    )
}

/// The paragraphs of the file at `path`: none when it could not be read.
pub open spec fn file_blocks(sources: Seq<Source>, path: Seq<char>) -> Seq<BlockView> {
    match source_text(sources, path) {
        Some(t) => text_paragraphs(t),
        None => seq![],
    }
}

/// The scenes of the files `fs`, a scene break between each two.
pub open spec fn scene_blocks(sources: Seq<Source>, fs: Seq<String>) -> Seq<BlockView>
    decreases fs.len(),
{
    if fs.len() == 0 {
        seq![]
    } else {
        scene_blocks(sources, fs.drop_last()) + (if fs.len() > 1 {
            seq![scene_break()]
        } else {
            seq![]
        }) + file_blocks(sources, fs.last()@)
    }
}

/// The text of a chapter or text entry: its single file, or else its scenes.
pub open spec fn entry_text_blocks(
    sources: Seq<Source>,
    file: Option<String>,
    files: Option<Vec<String>>,
) -> Seq<BlockView> {
    match file {
        Some(f) => file_blocks(sources, f@),
        None => match files {
            Some(fs) => scene_blocks(sources, fs@),
            None => seq![],
        },
    }
}

/// The heading of a chapter: `Chapter <number>`, its title, or both joined
/// by `": "`; none when it has neither.
pub open spec fn chapter_heading(number: Option<u32>, title: Option<String>) -> Option<Seq<char>> {
    match number {
        Some(n) => match title {
            Some(t) => Some("Chapter "@ + decimal(n as nat) + ": "@ + t@),
            None => Some("Chapter "@ + decimal(n as nat)),
        },
        None => match title {
            Some(t) => Some(t@),
            None => None,
        },
    }
}

/// A centred bold heading, followed by a blank line.
pub open spec fn heading_blocks(heading: Seq<char>) -> Seq<BlockView> {
    seq![
        BlockView::Para(para_view(aligned_format(Align::Center), seq![text_run_view(heading, true, false)])),
        blank(plain_format()),
    ]
}

pub open spec fn aligned_format(a: Align) -> ParaFormat {
    ParaFormat { align: Some(a), line_spacing: None, indent: None }
}

/// What a structure entry gives when it stands as a chapter: its heading and
/// its text for a chapter, nothing for anything else.
pub open spec fn chapter_blocks(sources: Seq<Source>, item: StructureItem) -> Seq<BlockView> {
    match item {
        StructureItem::Chapter { title, number, file, files } => (match chapter_heading(
            number,
            title,
        ) {
            Some(h) => heading_blocks(h),
            None => seq![],
        }) + entry_text_blocks(sources, file, files),
        _ => seq![],
    }
}

/// What a structure entry gives when it stands as a text: its text for a
/// text entry, nothing for anything else.
pub open spec fn text_blocks(sources: Seq<Source>, item: StructureItem) -> Seq<BlockView> {
    match item {
        StructureItem::Text { file, files } => entry_text_blocks(sources, file, files),
        _ => seq![],
    }
}

/// The chapters of a part, a separator between each two.
pub open spec fn part_chapters(
    sources: Seq<Source>,
    kind: StoryKind,
    content: Seq<StructureItem>,
) -> Seq<BlockView>
    decreases content.len(),
{
    if content.len() == 0 {
        seq![]
    } else {
        part_chapters(sources, kind, content.drop_last()) + (if content.len() > 1 {
            separator(kind)
        } else {
            seq![]
        }) + chapter_blocks(sources, content.last())
    }
}

/// The title page of a part: its centred bold title, alone on its page.
pub open spec fn part_title_blocks(title: Seq<char>) -> Seq<BlockView> {
    seq![
        BlockView::Para(para_view(aligned_format(Align::Center), seq![text_run_view(title, true, false)])),
        page_break(),
    ]
}

/// What a top-level structure entry gives: a part its title page (the
/// upper-cased title) and then its chapters; a chapter or text its text.
pub open spec fn item_blocks(sources: Seq<Source>, kind: StoryKind, item: StructureItem) -> Seq<
    BlockView,
> {
    match item {
        StructureItem::Part { title, content } => part_title_blocks(uppercase(title@)) + part_chapters(
            sources,
            kind,
            content@,
        ),
        StructureItem::Chapter { .. } => chapter_blocks(sources, item),
        StructureItem::Text { .. } => text_blocks(sources, item),
    }
}

/// The body of the manuscript: its structure entries, a separator between
/// each two.
pub open spec fn body_blocks(sources: Seq<Source>, kind: StoryKind, items: Seq<StructureItem>) -> Seq<
    BlockView,
>
    decreases items.len(),
{
    if items.len() == 0 {
        seq![]
    } else {
        body_blocks(sources, kind, items.drop_last()) + (if items.len() > 1 {
            separator(kind)
        } else {
            seq![]
        }) + item_blocks(sources, kind, items.last())
    }
}

fn separator_blocks(kind: StoryKind) -> (r: Vec<Block>)
    ensures
        blocks_view(r@) == separator(kind),
{
    let mut r: Vec<Block> = Vec::new();
    match kind {
        StoryKind::Novel => push_block(&mut r, Block::Para(para_of_run(plain(), break_run(BreakKind::Page)))),
        StoryKind::ShortStory => push_block(&mut r, Block::Para(empty_para(plain()))),
        StoryKind::Other => {},
    }
    assert(blocks_view(r@) == separator(kind));
    r
}

fn scene_break_block() -> (b: Block)
    ensures
        b@ == scene_break(),
{
    let f = ParaFormat { align: Some(Align::Center), line_spacing: Some(480), indent: None };
    proof {
        reveal_strlit("#");
        assert("#"@ =~= seq!['#']);
    }
    Block::Para(para_of_run(f, text_run("#".to_owned(), false, false)))
}

/// The paragraphs of the file at `path`: one per
/// line that is neither blank nor a heading; nothing when the file could not
/// be read.
pub fn append_file_content(sources: &Vec<Source>, path: &String) -> (r: Vec<Block>)
    ensures
        blocks_view(r@) == file_blocks(sources@, path@),
{
    match find_source(sources, path) {
        Some(t) => paragraphs_of_text(t.as_str()),
        None => {
            let r: Vec<Block> = Vec::new();
            assert(blocks_view(r@) == Seq::<BlockView>::empty());
            r
        },
    }
}

fn scenes(sources: &Vec<Source>, fs: &Vec<String>) -> (r: Vec<Block>)
    ensures
        blocks_view(r@) == scene_blocks(sources@, fs@),
{
    let mut out: Vec<Block> = Vec::new();
    let mut i: usize = 0;
    assert(blocks_view(out@) == Seq::<BlockView>::empty());
    assert(fs@.take(0) == Seq::<String>::empty());
    while i < fs.len()
        invariant
            i <= fs@.len(),
            blocks_view(out@) == scene_blocks(sources@, fs@.take(i as int)),
        decreases fs@.len() - i,
    {
        assert(fs@.take(i + 1).drop_last() == fs@.take(i as int));
        assert(fs@.take(i + 1).last() == fs@[i as int]);
        if i > 0 {
            push_block(&mut out, scene_break_block());
        }
        let more = append_file_content(sources, &fs[i]);
        append_blocks(&mut out, more);
        i = i + 1;
    }
    assert(fs@.take(i as int) == fs@);
    out
}

fn entry_text(sources: &Vec<Source>, file: &Option<String>, files: &Option<Vec<String>>) -> (r: Vec<
    Block,
>)
    ensures
        blocks_view(r@) == entry_text_blocks(sources@, *file, *files),
{
    match file {
        Some(f) => append_file_content(sources, f),
        None => match files {
            Some(fs) => scenes(sources, fs),
            None => {
                let r: Vec<Block> = Vec::new();
                assert(blocks_view(r@) == Seq::<BlockView>::empty());
                r
            },
        },
    }
}

fn heading_text(number: &Option<u32>, title: &Option<String>) -> (r: Option<String>)
    ensures
        match chapter_heading(*number, *title) {
            Some(h) => r matches Some(s) && s@ == h,
            None => r is None,
        },
{
    match number {
        Some(n) => {
            let mut s = "Chapter ".to_owned();
            push_decimal(&mut s, *n as usize);
            match title {
                Some(t) => {
                    push_str(&mut s, ": ");
                    push_str(&mut s, t.as_str());
                },
                None => {},
            }
            Some(s)
        },
        None => match title {
            Some(t) => Some(t.as_str().to_owned()),
            None => None,
        },
    }
}

fn heading_paragraphs(heading: String) -> (r: Vec<Block>)
    ensures
        blocks_view(r@) == heading_blocks(heading@),
{
    let mut r: Vec<Block> = Vec::new();
    push_block(&mut r, Block::Para(para_of_run(aligned(Align::Center), text_run(heading, true, false))));
    push_block(&mut r, Block::Para(empty_para(plain())));
    assert(blocks_view(r@) == heading_blocks(heading@));
    r
}

fn part_title_page(title: String) -> (r: Vec<Block>)
    ensures
        blocks_view(r@) == part_title_blocks(title@),
{
    let mut r: Vec<Block> = Vec::new();
    push_block(&mut r, Block::Para(para_of_run(aligned(Align::Center), text_run(title, true, false))));
    push_block(&mut r, Block::Para(para_of_run(plain(), break_run(BreakKind::Page))));
    assert(blocks_view(r@) == part_title_blocks(title@));
    r
}

/// The blocks of a structure entry standing as a chapter:
/// its heading and its text if it is a chapter, nothing otherwise.
pub fn process_chapter(sources: &Vec<Source>, item: &StructureItem) -> (r: Vec<Block>)
    ensures
        blocks_view(r@) == chapter_blocks(sources@, *item),
{
    match item {
        StructureItem::Chapter { title, number, file, files } => {
            let mut out: Vec<Block> = match heading_text(number, title) {
                Some(h) => heading_paragraphs(h),
                None => {
                    let r: Vec<Block> = Vec::new();
                    assert(blocks_view(r@) == Seq::<BlockView>::empty());
                    r
                },
            };
            let body = entry_text(sources, file, files);
            append_blocks(&mut out, body);
            out
        },
        _ => {
            let r: Vec<Block> = Vec::new();
            assert(blocks_view(r@) == Seq::<BlockView>::empty());
            r
        },
    }
}

/// The blocks of a structure entry standing as a text:
/// its text if it is a text entry, nothing otherwise.
pub fn process_text_item(sources: &Vec<Source>, item: &StructureItem) -> (r: Vec<Block>)
    ensures
        blocks_view(r@) == text_blocks(sources@, *item),
{
    match item {
        StructureItem::Text { file, files } => entry_text(sources, file, files),
        _ => {
            let r: Vec<Block> = Vec::new();
            assert(blocks_view(r@) == Seq::<BlockView>::empty());
            r
        },
    }
}

fn part_content(sources: &Vec<Source>, kind: StoryKind, content: &Vec<StructureItem>) -> (r: Vec<
    Block,
>)
    ensures
        blocks_view(r@) == part_chapters(sources@, kind, content@),
{
    let mut out: Vec<Block> = Vec::new();
    let mut i: usize = 0;
    assert(blocks_view(out@) == Seq::<BlockView>::empty());
    assert(content@.take(0) == Seq::<StructureItem>::empty());
    while i < content.len()
        invariant
            i <= content@.len(),
            blocks_view(out@) == part_chapters(sources@, kind, content@.take(i as int)),
        decreases content@.len() - i,
    {
        assert(content@.take(i + 1).drop_last() == content@.take(i as int));
        assert(content@.take(i + 1).last() == content@[i as int]);
        if i > 0 {
            append_blocks(&mut out, separator_blocks(kind));
        }
        append_blocks(&mut out, process_chapter(sources, &content[i]));
        i = i + 1;
    }
    assert(content@.take(i as int) == content@);
    out
}

fn item_content(sources: &Vec<Source>, kind: StoryKind, item: &StructureItem) -> (r: Vec<Block>)
    ensures
        blocks_view(r@) == item_blocks(sources@, kind, *item),
{
    match item {
        StructureItem::Part { title, content } => {
            let mut out = part_title_page(to_uppercase(title.as_str()));
            append_blocks(&mut out, part_content(sources, kind, content));
            out
        },
        StructureItem::Chapter { .. } => process_chapter(sources, item),
        StructureItem::Text { .. } => process_text_item(sources, item),
    }
}

/// The body of the manuscript: every structure entry in order, a separator
/// (by story kind) between each two.
pub fn body_content(sources: &Vec<Source>, kind: StoryKind, items: &Vec<StructureItem>) -> (r: Vec<
    Block,
>)
    ensures
        blocks_view(r@) == body_blocks(sources@, kind, items@),
{
    let mut out: Vec<Block> = Vec::new();
    let mut i: usize = 0;
    assert(blocks_view(out@) == Seq::<BlockView>::empty());
    assert(items@.take(0) == Seq::<StructureItem>::empty());
    while i < items.len()
        invariant
            i <= items@.len(),
            blocks_view(out@) == body_blocks(sources@, kind, items@.take(i as int)),
        decreases items@.len() - i,
    {
        assert(items@.take(i + 1).drop_last() == items@.take(i as int));
        assert(items@.take(i + 1).last() == items@[i as int]);
        if i > 0 {
            append_blocks(&mut out, separator_blocks(kind));
        }
        append_blocks(&mut out, item_content(sources, kind, &items[i]));
        i = i + 1;
    }
    assert(items@.take(i as int) == items@);
    out
}

/// The run of the page-number field: begin, `PAGE`, separate, the
/// placeholder `1`, end.
pub open spec fn page_number_run() -> RunView {
    RunView {
        pieces: seq![
            PieceView::Field(FieldKind::Begin),
            PieceView::PageInstr,
            PieceView::Field(FieldKind::Separate),
            PieceView::Text(seq!['1']),
            PieceView::Field(FieldKind::End),
        ],
        bold: false,
        italic: false,
    }
}

/// The page header: right-aligned `LastName | Short Title | PageNumber`,
/// the short title in italics; in blind mode without the last name.
pub open spec fn header_para(last_name: Seq<char>, short_title: Seq<char>, blind: bool) -> ParaView {
    para_view(
        aligned_format(Align::Right),
        (if blind {
            seq![]
        } else {
            seq![text_run_view(last_name + " | "@, false, false)]
        }) + seq![
            text_run_view(short_title, false, true),
            text_run_view(" | "@, false, false),
            page_number_run(),
        ],
    )
}

/// The page header paragraph: right-aligned last name (left out in blind
/// mode), italic short title and page number.
pub fn setup_header(last_name: &String, short_title: &String, blind: bool) -> (p: crate::model::Para)
    ensures
        p@ == header_para(last_name@, short_title@, blind),
{
    let mut runs: Vec<TextRun> = Vec::new();
    assert(runs_view(runs@) == Seq::<RunView>::empty());
    if !blind {
        let mut s = last_name.as_str().to_owned();
        push_str(&mut s, " | ");
        push_run(&mut runs, text_run(s, false, false));
    }
    push_run(&mut runs, text_run(short_title.as_str().to_owned(), false, true));
    push_run(&mut runs, text_run(" | ".to_owned(), false, false));
    let mut field = TextRun { pieces: Vec::new(), bold: false, italic: false };
    assert(field@.pieces == Seq::<PieceView>::empty());
    push_piece(&mut field, Piece::Field(FieldKind::Begin));
    push_piece(&mut field, Piece::PageInstr);
    push_piece(&mut field, Piece::Field(FieldKind::Separate));
    push_piece(&mut field, Piece::Text("1".to_owned()));
    push_piece(&mut field, Piece::Field(FieldKind::End));
    proof {
        reveal_strlit("1");
        assert("1"@ =~= seq!['1']);
        assert(field@.pieces =~= page_number_run().pieces);
    }
    push_run(&mut runs, field);
    let p = para(aligned(Align::Right), runs);
    assert(p@.runs =~= header_para(last_name@, short_title@, blind).runs);
    p
}

/// A line break inside a paragraph.
pub open spec fn line_break_run() -> RunView {
    break_run_view(BreakKind::TextWrapping)
}

/// The author's contact block: legal name, street address, city/state/zip,
/// phone and email, one per line.
pub open spec fn contact_runs(a: Author) -> Seq<RunView> {
    seq![
        text_run_view(a.legal_name@, false, false),
        line_break_run(),
        text_run_view(a.street_address@, false, false),
        line_break_run(),
        text_run_view(a.city_state_zip@, false, false),
        line_break_run(),
        text_run_view(a.phone@, false, false),
        line_break_run(),
        text_run_view(a.email@, false, false),
    ]
}

/// The agent's contact block, after a blank line: name, agency, street
/// address, city/state/zip, phone and email, one per line.
pub open spec fn agent_runs(g: Agent) -> Seq<RunView> {
    seq![
        line_break_run(),
        line_break_run(),
        text_run_view(g.name@, false, false),
        line_break_run(),
        text_run_view(g.agency@, false, false),
        line_break_run(),
        text_run_view(g.street_address@, false, false),
        line_break_run(),
        text_run_view(g.city_state_zip@, false, false),
        line_break_run(),
        text_run_view(g.phone@, false, false),
        line_break_run(),
        text_run_view(g.email@, false, false),
    ]
}

/// The left cell of the title page: the author's contact block and, where
/// there is an agent, the agent's; nothing in blind mode.
pub open spec fn contact_para(a: Author, agent: Option<Agent>, blind: bool) -> ParaView {
    para_view(
        plain_format(),
        if blind {
            seq![]
        } else {
            contact_runs(a) + match agent {
                Some(g) => agent_runs(g),
                None => seq![],
            }
        },
    )
}

/// The right cell of the title page: `Approx. <count> words`.
pub open spec fn word_count_para(words: nat) -> ParaView {
    para_view(
        aligned_format(Align::Right),
        seq![text_run_view("Approx. "@ + grouped(words) + " words"@, false, false)],
    )
}

/// Blank lines above the title: more for a short story, which starts
/// halfway down the page.
pub open spec fn title_spacing(kind: StoryKind) -> nat {
    if kind == StoryKind::ShortStory {
        17
    } else {
        8
    }
}

/// `by`, a line break, and the byline, centred.
pub open spec fn byline_para(byline: Seq<char>) -> ParaView {
    para_view(
        aligned_format(Align::Center),
        seq![
            RunView { pieces: seq![PieceView::Text("by"@), PieceView::Break(BreakKind::TextWrapping)], bold: false, italic: false },
            text_run_view(byline, false, false),
        ],
    )
}

/// After the title: a page break for a novel, three blank lines otherwise.
pub open spec fn title_page_end(kind: StoryKind) -> Seq<BlockView> {
    if kind == StoryKind::Novel {
        seq![page_break()]
    } else {
        seq![blank(plain_format()), blank(plain_format()), blank(plain_format())]
    }
}

/// The title page: the contact table, blank lines, the upper-cased bold
/// title, the byline (not in blind mode) and the end of the title page.
pub open spec fn title_page(config: Config, kind: StoryKind, words: nat, blind: bool) -> Seq<BlockView> {
    seq![BlockView::ContactTable(contact_para(config.author, config.agent, blind), word_count_para(words))]
        + Seq::new(title_spacing(kind), |_i: int| blank(plain_format())) + seq![
        BlockView::Para(
            para_view(
                aligned_format(Align::Center),
                seq![text_run_view(uppercase(config.metadata.title@), true, false)],
            ),
        ),
    ] + (if blind {
        seq![]
    } else {
        seq![BlockView::Para(byline_para(config.metadata.byline@))]
    }) + title_page_end(kind)
}

fn push_line(runs: &mut Vec<TextRun>, text: &String)
    ensures
        runs_view(final(runs)@) == runs_view(old(runs)@) + seq![line_break_run(), text_run_view(text@, false, false)],
{
    let ghost before = runs_view(runs@);
    push_run(runs, break_run(BreakKind::TextWrapping));
    push_run(runs, text_run(text.as_str().to_owned(), false, false));
    assert(runs_view(runs@) =~= before + seq![line_break_run(), text_run_view(text@, false, false)]);
}

fn contact_paragraph(a: &Author, agent: &Option<Agent>, blind: bool) -> (p: crate::model::Para)
    ensures
        p@ == contact_para(*a, *agent, blind),
{
    let mut runs: Vec<TextRun> = Vec::new();
    assert(runs_view(runs@) == Seq::<RunView>::empty());
    if !blind {
        push_run(&mut runs, text_run(a.legal_name.as_str().to_owned(), false, false));
        push_line(&mut runs, &a.street_address);
        push_line(&mut runs, &a.city_state_zip);
        push_line(&mut runs, &a.phone);
        push_line(&mut runs, &a.email);
        assert(runs_view(runs@) =~= contact_runs(*a));
        match agent {
            Some(g) => {
                let ghost mid = runs_view(runs@);
                push_run(&mut runs, break_run(BreakKind::TextWrapping));
                push_line(&mut runs, &g.name);
                push_line(&mut runs, &g.agency);
                push_line(&mut runs, &g.street_address);
                push_line(&mut runs, &g.city_state_zip);
                push_line(&mut runs, &g.phone);
                push_line(&mut runs, &g.email);
                assert(runs_view(runs@) =~= mid + agent_runs(*g));
            },
            None => {
                assert(runs_view(runs@) =~= contact_runs(*a) + Seq::<RunView>::empty());
            },
        }
    }
    let p = para(plain(), runs);
    assert(p@.runs =~= contact_para(*a, *agent, blind).runs);
    p
}

/// The title page: contact block and word count, the title, the byline
/// (left out in blind mode) and the break after the title page.
pub fn create_title_page(config: &Config, kind: StoryKind, words: usize, blind: bool) -> (r: Vec<
    Block,
>)
    ensures
        blocks_view(r@) == title_page(*config, kind, words as nat, blind),
{
    let mut out: Vec<Block> = Vec::new();
    assert(blocks_view(out@) == Seq::<BlockView>::empty());
    let left = contact_paragraph(&config.author, &config.agent, blind);
    let mut count = "Approx. ".to_owned();
    push_str(&mut count, format_number(words).as_str());
    push_str(&mut count, " words");
    let right = para_of_run(aligned(Align::Right), text_run(count, false, false));
    push_block(&mut out, Block::ContactTable(left, right));
    let spacing: usize = if kind == StoryKind::ShortStory {
        17
    } else {
        8
    };
    let mut i: usize = 0;
    let ghost head = blocks_view(out@);
    while i < spacing
        invariant
            i <= spacing,
            spacing == title_spacing(kind),
            blocks_view(out@) == head + Seq::new(i as nat, |_i: int| blank(plain_format())),
        decreases spacing - i,
    {
        push_block(&mut out, Block::Para(empty_para(plain())));
        assert(Seq::new((i + 1) as nat, |_i: int| blank(plain_format())) == Seq::new(
            i as nat,
            |_i: int| blank(plain_format()),
        ).push(blank(plain_format())));
        i = i + 1;
    }
    let title = to_uppercase(config.metadata.title.as_str());
    push_block(&mut out, Block::Para(para_of_run(aligned(Align::Center), text_run(title, true, false))));
    let ghost mid = blocks_view(out@);
    if !blind {
        let mut by = TextRun { pieces: Vec::new(), bold: false, italic: false };
        assert(by@.pieces == Seq::<PieceView>::empty());
        push_piece(&mut by, Piece::Text("by".to_owned()));
        push_piece(&mut by, Piece::Break(BreakKind::TextWrapping));
        let mut runs: Vec<TextRun> = Vec::new();
        assert(runs_view(runs@) == Seq::<RunView>::empty());
        push_run(&mut runs, by);
        push_run(&mut runs, text_run(config.metadata.byline.as_str().to_owned(), false, false));
        let p = para(aligned(Align::Center), runs);
        assert(runs_view(runs@)[0].pieces =~= byline_para(config.metadata.byline@).runs[0].pieces);
        assert(p@.runs =~= byline_para(config.metadata.byline@).runs);
        push_block(&mut out, Block::Para(p));
    }
    let ghost mid2 = blocks_view(out@);
    if kind == StoryKind::Novel {
        push_block(&mut out, Block::Para(para_of_run(plain(), break_run(BreakKind::Page))));
    } else {
        push_block(&mut out, Block::Para(empty_para(plain())));
        push_block(&mut out, Block::Para(empty_para(plain())));
        push_block(&mut out, Block::Para(empty_para(plain())));
    }
    assert(blocks_view(out@) == mid2 + title_page_end(kind));
    assert(blocks_view(out@) == title_page(*config, kind, words as nat, blind));
    out
}

/// The end of the manuscript: two blank double-spaced lines and a centred
/// `#  #  #`.
pub open spec fn closing_blocks() -> Seq<BlockView> {
    seq![
        blank(double_spaced(None)),
        blank(double_spaced(None)),
        BlockView::Para(
            para_view(double_spaced(Some(Align::Center)), seq![text_run_view("#  #  #"@, false, false)]),
        ),
    ]
}

fn closing(out: &mut Vec<Block>)
    ensures
        blocks_view(final(out)@) == blocks_view(old(out)@) + closing_blocks(),
{
    let ghost before = blocks_view(out@);
    let f = ParaFormat { align: None, line_spacing: Some(480), indent: None };
    push_block(out, Block::Para(empty_para(f)));
    push_block(out, Block::Para(empty_para(f)));
    let c = ParaFormat { align: Some(Align::Center), line_spacing: Some(480), indent: None };
    push_block(out, Block::Para(para_of_run(c, text_run("#  #  #".to_owned(), false, false))));
    assert(blocks_view(out@) == before + closing_blocks());
}

/// The files whose text an entry lays out: its single file, or else its
/// scene files.
pub open spec fn entry_files(file: Option<String>, files: Option<Vec<String>>) -> Seq<Seq<char>> {
    match file {
        Some(f) => seq![f@],
        None => match files {
            Some(fs) => strings_view(fs@),
            None => seq![],
        },
    }
}

/// The files a top-level chapter or text lays out.
pub open spec fn item_word_files(item: StructureItem) -> Seq<Seq<char>> {
    match item {
        StructureItem::Chapter { file, files, .. } => entry_files(file, files),
        StructureItem::Text { file, files } => entry_files(file, files),
        StructureItem::Part { .. } => seq![],
    }
}

/// The files an entry of a part lays out: those of a chapter; nothing
/// else in a part is laid out.
pub open spec fn chapter_word_files(item: StructureItem) -> Seq<Seq<char>> {
    match item {
        StructureItem::Chapter { file, files, .. } => entry_files(file, files),
        _ => seq![],
    }
}

/// The files the chapters of a part lay out.
pub open spec fn content_word_files(content: Seq<StructureItem>) -> Seq<Seq<char>>
    decreases content.len(),
{
    if content.len() == 0 {
        seq![]
    } else {
        content_word_files(content.drop_last()) + chapter_word_files(content.last())
    }
}

/// The files a top-level entry lays out.
pub open spec fn top_word_files(item: StructureItem) -> Seq<Seq<char>> {
    match item {
        StructureItem::Part { content, .. } => content_word_files(content@),
        _ => item_word_files(item),
    }
}

/// Every file the manuscript lays out, in order and with repetitions: those
/// of top-level chapters and texts and of the chapters of parts.
pub open spec fn word_files(items: Seq<StructureItem>) -> Seq<Seq<char>>
    decreases items.len(),
{
    if items.len() == 0 {
        seq![]
    } else {
        word_files(items.drop_last()) + top_word_files(items.last())
    }
}

/// The words of a file: none when it could not be read.
pub open spec fn file_words(sources: Seq<Source>, path: Seq<char>) -> nat {
    match source_text(sources, path) {
        Some(t) => text_words(t),
        None => 0,
    }
}

/// The words of the files `paths`.
pub open spec fn total_words(sources: Seq<Source>, paths: Seq<Seq<char>>) -> nat
    decreases paths.len(),
{
    if paths.len() == 0 {
        0
    } else {
        total_words(sources, paths.drop_last()) + file_words(sources, paths.last())
    }
}

/// The words of the whole manuscript, before rounding.
pub open spec fn manuscript_words(config: Config, sources: Seq<Source>) -> nat {
    total_words(sources, word_files(config.structure@))
}

fn push_entry_files(out: &mut Vec<String>, file: &Option<String>, files: &Option<Vec<String>>)
    ensures
        strings_view(final(out)@) == strings_view(old(out)@) + entry_files(*file, *files),
{
    let ghost before = strings_view(out@);
    match file {
        Some(f) => {
            out.push(f.as_str().to_owned());
            assert(strings_view(out@) == before.push(f@));
        },
        None => match files {
            Some(fs) => {
                let mut i: usize = 0;
                assert(strings_view(fs@).take(0) == Seq::<Seq<char>>::empty());
                while i < fs.len()
                    invariant
                        i <= fs@.len(),
                        strings_view(out@) == before + strings_view(fs@).take(i as int),
                    decreases fs@.len() - i,
                {
                    let ghost o = out@;
                    out.push(fs[i].as_str().to_owned());
                    assert(strings_view(out@) == strings_view(o).push(fs@[i as int]@));
                    assert(strings_view(fs@).take(i + 1) == strings_view(fs@).take(i as int).push(
                        fs@[i as int]@,
                    ));
                    i = i + 1;
                }
                assert(strings_view(fs@).take(i as int) == strings_view(fs@));
            },
            None => {
                assert(strings_view(out@) == before + Seq::<Seq<char>>::empty());
            },
        },
    }
}

fn push_chapter_files(out: &mut Vec<String>, item: &StructureItem)
    ensures
        strings_view(final(out)@) == strings_view(old(out)@) + chapter_word_files(*item),
{
    match item {
        StructureItem::Chapter { file, files, .. } => push_entry_files(out, file, files),
        _ => {
            assert(strings_view(out@) == strings_view(out@) + Seq::<Seq<char>>::empty());
        },
    }
}

fn push_item_files(out: &mut Vec<String>, item: &StructureItem)
    ensures
        strings_view(final(out)@) == strings_view(old(out)@) + item_word_files(*item),
{
    match item {
        StructureItem::Chapter { file, files, .. } => push_entry_files(out, file, files),
        StructureItem::Text { file, files } => push_entry_files(out, file, files),
        StructureItem::Part { .. } => {
            assert(strings_view(out@) == strings_view(out@) + Seq::<Seq<char>>::empty());
        },
    }
}

/// Every file the manuscript lays out, in order: the files the caller has
/// to read, and those the word count covers.
pub fn referenced_files(config: &Config) -> (r: Vec<String>)
    ensures
        strings_view(r@) == word_files(config.structure@),
{
    let items = &config.structure;
    let mut out: Vec<String> = Vec::new();
    let mut i: usize = 0;
    assert(strings_view(out@) == Seq::<Seq<char>>::empty());
    assert(items@.take(0) == Seq::<StructureItem>::empty());
    while i < items.len()
        invariant
            i <= items@.len(),
            items == &config.structure,
            strings_view(out@) == word_files(items@.take(i as int)),
        decreases items@.len() - i,
    {
        assert(items@.take(i + 1).drop_last() == items@.take(i as int));
        assert(items@.take(i + 1).last() == items@[i as int]);
        match &items[i] {
            StructureItem::Part { content, .. } => {
                let ghost before = strings_view(out@);
                let mut j: usize = 0;
                assert(content@.take(0) == Seq::<StructureItem>::empty());
                while j < content.len()
                    invariant
                        j <= content@.len(),
                        strings_view(out@) == before + content_word_files(content@.take(j as int)),
                    decreases content@.len() - j,
                {
                    assert(content@.take(j + 1).drop_last() == content@.take(j as int));
                    assert(content@.take(j + 1).last() == content@[j as int]);
                    push_chapter_files(&mut out, &content[j]);
                    j = j + 1;
                }
                assert(content@.take(j as int) == content@);
            },
            _ => {
                push_item_files(&mut out, &items[i]);
            },
        }
        i = i + 1;
    }
    assert(items@.take(i as int) == items@);
    out
}

/// The words of the file at `path`.
fn words_of_file(sources: &Vec<Source>, path: &String) -> (r: usize)
    ensures
        r == file_words(sources@, path@),
{
    match find_source(sources, path) {
        Some(t) => words_of_text(t.as_str()),
        None => 0,
    }
}

/// The number of words of the whole manuscript (before rounding), or `None`
/// where it does not fit in a `usize`.
pub fn manuscript_word_total(config: &Config, sources: &Vec<Source>) -> (r: Option<usize>)
    ensures
        match r {
            Some(n) => n == manuscript_words(*config, sources@),
            None => manuscript_words(*config, sources@) > usize::MAX,
        },
{
    let paths = referenced_files(config);
    let ghost ps = strings_view(paths@);
    let mut total: usize = 0;
    let mut i: usize = 0;
    assert(ps.take(0) == Seq::<Seq<char>>::empty());
    while i < paths.len()
        invariant
            i <= paths@.len(),
            ps == strings_view(paths@),
            ps == word_files(config.structure@),
            total == total_words(sources@, ps.take(i as int)),
        decreases paths@.len() - i,
    {
        assert(ps.take(i + 1).drop_last() == ps.take(i as int));
        assert(ps.take(i + 1).last() == paths@[i as int]@);
        let n = words_of_file(sources, &paths[i]);
        match total.checked_add(n) {
            Some(t) => total = t,
            None => {
                proof {
                    lemma_total_words_monotone(sources@, ps, i + 1);
                }
                return None;
            },
        }
        i = i + 1;
    }
    assert(ps.take(i as int) == ps);
    Some(total)
}

proof fn lemma_total_words_monotone(sources: Seq<Source>, ps: Seq<Seq<char>>, k: int)
    requires
        0 <= k <= ps.len(),
    ensures
        total_words(sources, ps.take(k)) <= total_words(sources, ps),
    decreases ps.len() - k,
{
    if k < ps.len() {
        lemma_total_words_monotone(sources, ps, k + 1);
        assert(ps.take(k + 1).drop_last() == ps.take(k));
    } else {
        assert(ps.take(k) == ps);
    }
}

/// The word count shown on the title page: the
/// words of every file the structure names, rounded to the nearest hundred.
pub fn calculate_word_count(config: &Config, sources: &Vec<Source>) -> (r: usize)
    requires
        manuscript_words(*config, sources@) + 50 <= usize::MAX,
    ensures
        r == round_to_hundred(manuscript_words(*config, sources@)),
{
    match manuscript_word_total(config, sources) {
        Some(n) => round_word_count(n),
        None => 0,
    }
}

/// The manuscript a configuration and its files make.
pub open spec fn manuscript_view(config: Config, sources: Seq<Source>, blind: bool) -> ManuscriptView {
    let kind = story_kind_of(config.metadata.story_type);
    let words = round_to_hundred(manuscript_words(config, sources));
    ManuscriptView {
        header: header_para(config.metadata.last_name@, config.metadata.short_title@, blind),
        body: title_page(config, kind, words, blind) + body_blocks(sources, kind, config.structure@)
            + closing_blocks(),
    }
}

/// Lays out the manuscript: page header, title page, body and closing mark.
/// In blind mode the author's name and contact details are left out.
pub fn build_manuscript(config: &Config, sources: &Vec<Source>, blind: bool) -> (m: Manuscript)
    requires
        manuscript_words(*config, sources@) + 50 <= usize::MAX,
    ensures
        m@ == manuscript_view(*config, sources@, blind),
{
    let kind = story_kind(&config.metadata.story_type);
    let words = calculate_word_count(config, sources);
    let header = setup_header(&config.metadata.last_name, &config.metadata.short_title, blind);
    let mut body = create_title_page(config, kind, words, blind);
    let content = body_content(sources, kind, &config.structure);
    append_blocks(&mut body, content);
    closing(&mut body);
    Manuscript { header, body }
}

/// The name of the output file: `file_name`, or `manuscript.docx`.
pub open spec fn output_file_name(config: Config) -> Seq<char> {
    match config.metadata.file_name {
        Some(f) => f@,
        None => "manuscript.docx"@,
    }
}

/// The name of the output file (`manuscript.docx` unless the metadata names one).
pub fn output_file(config: &Config) -> (r: String)
    ensures
        r@ == output_file_name(*config),
{
    match &config.metadata.file_name {
        Some(f) => f.as_str().to_owned(),
        None => "manuscript.docx".to_owned(),
    }
}

} // verus!
