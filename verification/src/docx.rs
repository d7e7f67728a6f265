//! Writing the laid-out manuscript with `docx_rs`: the document builder's
//! values are opaque, so each is described by what the builder calls put
//! into it, and the rendering is proved to carry the manuscript over whole.
use vstd::prelude::*;
use crate::model::{
    Align, Block, BlockView, BreakKind, FieldKind, Indent, Manuscript, Para,
    ParaFormat, ParaView, Piece, PieceView, RunView, TextRun,
};

verus! {

#[verifier::external_type_specification]
#[verifier::external_body]
pub struct ExDocx(docx_rs::Docx);

#[verifier::external_type_specification]
#[verifier::external_body]
pub struct ExParagraph(docx_rs::Paragraph);

#[verifier::external_type_specification]
#[verifier::external_body]
pub struct ExRun(docx_rs::Run);

#[verifier::external_type_specification]
#[verifier::external_body]
pub struct ExHeader(docx_rs::Header);

#[verifier::external_type_specification]
#[verifier::external_body]
pub struct ExTable(docx_rs::Table);

#[verifier::external_type_specification]
#[verifier::external_body]
pub struct ExTableRow(docx_rs::TableRow);

#[verifier::external_type_specification]
#[verifier::external_body]
pub struct ExTableCell(docx_rs::TableCell);

#[verifier::external_type_specification]
#[verifier::external_body]
pub struct ExTableBorders(docx_rs::TableBorders);

#[verifier::external_type_specification]
#[verifier::external_body]
pub struct ExLineSpacing(docx_rs::LineSpacing);

#[verifier::external_type_specification]
#[verifier::external_body]
pub struct ExRunFonts(docx_rs::RunFonts);

#[verifier::external_type_specification]
#[verifier::external_body]
pub struct ExPageMargin(docx_rs::PageMargin);

/// A table cell as the builder holds it: its paragraphs and its width in
/// twentieths of a point, if given in that unit.
pub struct CellView {
    pub paragraphs: Seq<ParaView>,
    pub dxa_width: Option<usize>,
}

/// An element of a document body as the builder holds it.
pub enum DocBlock {
    Para(ParaView),
    /// A table: its rows of cells, and whether all its borders are cleared.
    Table(Seq<Seq<CellView>>, bool),
}

/// The document-wide settings: default header, first-page header, default
/// fonts (ASCII, high ANSI), default size in half-points, page margins
/// (top, left, bottom, right); `None` where no call set them.
pub struct DocSetup {
    pub header: Option<Seq<ParaView>>,
    pub first_header: Option<Seq<ParaView>>,
    pub fonts: Option<(Option<Seq<char>>, Option<Seq<char>>)>,
    pub size: Option<usize>,
    pub margins: Option<(i32, i32, i32, i32)>,
}

/// The children of a `docx_rs::Run`: each text as it was given with its line
/// feeds removed (the run holds it XML-escaped, which loses nothing).
pub uninterp spec fn run_pieces(r: docx_rs::Run) -> Seq<PieceView>;

/// Whether a `docx_rs::Run` is set bold, and whether italic.
pub uninterp spec fn run_style(r: docx_rs::Run) -> (bool, bool);

/// The runs of a `docx_rs::Paragraph`.
pub uninterp spec fn paragraph_runs(p: docx_rs::Paragraph) -> Seq<RunView>;

/// The alignment, line spacing and indentation of a `docx_rs::Paragraph`.
pub uninterp spec fn paragraph_format(p: docx_rs::Paragraph) -> ParaFormat;

/// The `line` value of a `docx_rs::LineSpacing`.
pub uninterp spec fn line_spacing_line(s: docx_rs::LineSpacing) -> Option<i32>;

/// The paragraphs of a `docx_rs::Header`.
pub uninterp spec fn header_paragraphs(h: docx_rs::Header) -> Seq<ParaView>;

/// The paragraphs of a `docx_rs::TableCell`.
pub uninterp spec fn cell_paragraphs(c: docx_rs::TableCell) -> Seq<ParaView>;

/// The width of a `docx_rs::TableCell` in twentieths of a point, if set so.
pub uninterp spec fn cell_dxa_width(c: docx_rs::TableCell) -> Option<usize>;

/// The cells of a `docx_rs::TableRow`.
pub uninterp spec fn row_cells(r: docx_rs::TableRow) -> Seq<CellView>;

/// The rows of a `docx_rs::Table`.
pub uninterp spec fn table_rows(t: docx_rs::Table) -> Seq<Seq<CellView>>;

/// Whether all borders of a `docx_rs::Table` are cleared.
pub uninterp spec fn table_borders_cleared(t: docx_rs::Table) -> bool;

/// Whether all six borders of a `docx_rs::TableBorders` are cleared.
pub uninterp spec fn borders_cleared(b: docx_rs::TableBorders) -> bool;

/// The ASCII and high-ANSI font names of a `docx_rs::RunFonts`, as they
/// were given (it holds them XML-escaped).
pub uninterp spec fn font_names(f: docx_rs::RunFonts) -> (Option<Seq<char>>, Option<Seq<char>>);

/// The top, left, bottom and right margins of a `docx_rs::PageMargin`.
pub uninterp spec fn margin_sides(m: docx_rs::PageMargin) -> (i32, i32, i32, i32);

/// The body of a `docx_rs::Docx`.
pub uninterp spec fn docx_body(d: docx_rs::Docx) -> Seq<DocBlock>;

/// The document-wide settings of a `docx_rs::Docx`.
pub uninterp spec fn docx_setup(d: docx_rs::Docx) -> DocSetup;

/// A `docx_rs::Run` as a run of the manuscript.
pub open spec fn run_of(r: docx_rs::Run) -> RunView {
    RunView { pieces: run_pieces(r), bold: run_style(r).0, italic: run_style(r).1 }
}

/// A `docx_rs::Paragraph` as a paragraph of the manuscript.
pub open spec fn paragraph_of(p: docx_rs::Paragraph) -> ParaView {
    ParaView { format: paragraph_format(p), runs: paragraph_runs(p) }
}

/// A `docx_rs::TableCell` as a cell.
pub open spec fn cell_of(c: docx_rs::TableCell) -> CellView {
    CellView { paragraphs: cell_paragraphs(c), dxa_width: cell_dxa_width(c) }
}

/// `s` without its line feeds, as `Run::add_text` stores a text.
pub open spec fn without_line_feeds(s: Seq<char>) -> Seq<char>
    decreases s.len(),
{
    if s.len() == 0 {
        s
    } else if s.last() == '\n' {
        without_line_feeds(s.drop_last())
    } else {
        without_line_feeds(s.drop_last()).push(s.last())
    }
}

/// `Run::new`. Claims: no children, neither bold nor italic.
#[verifier::external_body]
fn run_new() -> (r: docx_rs::Run)
    ensures
        run_pieces(r) == Seq::<PieceView>::empty(),
        run_style(r) == (false, false),
{
    docx_rs::Run::new()
}

/// `Run::add_text`. Claims: appends the text, line feeds removed; the style
/// is unchanged.
#[verifier::external_body]
fn run_add_text(r: docx_rs::Run, text: &str) -> (res: docx_rs::Run)
    ensures
        run_pieces(res) == run_pieces(r).push(PieceView::Text(without_line_feeds(text@))),
        run_style(res) == run_style(r),
{
    r.add_text(text)
}

/// `Run::add_break`. Claims: appends the break; the style is unchanged.
#[verifier::external_body]
fn run_add_break(r: docx_rs::Run, kind: BreakKind) -> (res: docx_rs::Run)
    ensures
        run_pieces(res) == run_pieces(r).push(PieceView::Break(kind)),
        run_style(res) == run_style(r),
{
    r.add_break(
        match kind {
            BreakKind::Page => docx_rs::BreakType::Page,
            BreakKind::TextWrapping => docx_rs::BreakType::TextWrapping,
        },
    )
}

/// `Run::add_field_char` (not dirty). Claims: appends the field marker; the
/// style is unchanged.
#[verifier::external_body]
fn run_add_field_char(r: docx_rs::Run, kind: FieldKind) -> (res: docx_rs::Run)
    ensures
        run_pieces(res) == run_pieces(r).push(PieceView::Field(kind)),
        run_style(res) == run_style(r),
{
    r.add_field_char(
        match kind {
            FieldKind::Begin => docx_rs::FieldCharType::Begin,
            FieldKind::Separate => docx_rs::FieldCharType::Separate,
            FieldKind::End => docx_rs::FieldCharType::End,
        },
        false,
    )
}

/// `Run::add_instr_text` with a `PAGE` instruction. Claims: appends it; the
/// style is unchanged.
#[verifier::external_body]
fn run_add_page_instr(r: docx_rs::Run) -> (res: docx_rs::Run)
    ensures
        run_pieces(res) == run_pieces(r).push(PieceView::PageInstr),
        run_style(res) == run_style(r),
{
    r.add_instr_text(docx_rs::InstrText::PAGE(docx_rs::InstrPAGE::new()))
}

/// `Run::bold`. Claims: sets bold; children and italic unchanged.
#[verifier::external_body]
fn run_bold(r: docx_rs::Run) -> (res: docx_rs::Run)
    ensures
        run_pieces(res) == run_pieces(r),
        run_style(res) == (true, run_style(r).1),
{
    r.bold()
}

/// `Run::italic`. Claims: sets italic; children and bold unchanged.
#[verifier::external_body]
fn run_italic(r: docx_rs::Run) -> (res: docx_rs::Run)
    ensures
        run_pieces(res) == run_pieces(r),
        run_style(res) == (run_style(r).0, true),
{
    r.italic()
}

/// `Paragraph::new`. Claims: no runs, no alignment, spacing or indentation.
#[verifier::external_body]
fn paragraph_new() -> (p: docx_rs::Paragraph)
    ensures
        paragraph_runs(p) == Seq::<RunView>::empty(),
        paragraph_format(p) == (ParaFormat { align: None, line_spacing: None, indent: None }),
{
    docx_rs::Paragraph::new()
}

/// `Paragraph::add_run`. Claims: appends the run; the format is unchanged.
#[verifier::external_body]
fn paragraph_add_run(p: docx_rs::Paragraph, r: docx_rs::Run) -> (res: docx_rs::Paragraph)
    ensures
        paragraph_runs(res) == paragraph_runs(p).push(run_of(r)),
        paragraph_format(res) == paragraph_format(p),
{
    p.add_run(r)
}

/// `Paragraph::align`. Claims: sets the alignment; runs, spacing and
/// indentation unchanged.
#[verifier::external_body]
fn paragraph_align(p: docx_rs::Paragraph, a: Align) -> (res: docx_rs::Paragraph)
    ensures
        paragraph_runs(res) == paragraph_runs(p),
        paragraph_format(res) == (ParaFormat { align: Some(a), ..paragraph_format(p) }),
{
    p.align(
        match a {
            Align::Center => docx_rs::AlignmentType::Center,
            Align::Right => docx_rs::AlignmentType::Right,
        },
    )
}

/// `Paragraph::line_spacing`. Claims: sets the spacing to that of `s`;
/// runs, alignment and indentation unchanged.
#[verifier::external_body]
fn paragraph_line_spacing(p: docx_rs::Paragraph, s: docx_rs::LineSpacing) -> (res:
    docx_rs::Paragraph)
    ensures
        paragraph_runs(res) == paragraph_runs(p),
        paragraph_format(res) == (ParaFormat {
            line_spacing: line_spacing_line(s),
            ..paragraph_format(p)
        }),
{
    p.line_spacing(s)
}

/// `Paragraph::indent(left, first line, end, no start chars)`. Claims: sets
/// the indentation; runs, alignment and spacing unchanged.
#[verifier::external_body]
fn paragraph_indent(p: docx_rs::Paragraph, i: Indent) -> (res: docx_rs::Paragraph)
    ensures
        paragraph_runs(res) == paragraph_runs(p),
        paragraph_format(res) == (ParaFormat { indent: Some(i), ..paragraph_format(p) }),
{
    p.indent(i.left, i.first_line.map(docx_rs::SpecialIndentType::FirstLine), i.end, None)
}

/// `LineSpacing::new`. Claims: no `line` value.
#[verifier::external_body]
fn line_spacing_new() -> (s: docx_rs::LineSpacing)
    ensures
        line_spacing_line(s) == None::<i32>,
{
    docx_rs::LineSpacing::new()
}

/// `LineSpacing::line`. Claims: sets the `line` value.
#[verifier::external_body]
fn line_spacing_set_line(s: docx_rs::LineSpacing, line: i32) -> (res: docx_rs::LineSpacing)
    ensures
        line_spacing_line(res) == Some(line),
{
    s.line(line)
}

/// `Header::new`. Claims: no paragraphs.
#[verifier::external_body]
fn header_new() -> (h: docx_rs::Header)
    ensures
        header_paragraphs(h) == Seq::<ParaView>::empty(),
{
    docx_rs::Header::new()
}

/// `Header::add_paragraph`. Claims: appends the paragraph.
#[verifier::external_body]
fn header_add_paragraph(h: docx_rs::Header, p: docx_rs::Paragraph) -> (res: docx_rs::Header)
    ensures
        header_paragraphs(res) == header_paragraphs(h).push(paragraph_of(p)),
{
    h.add_paragraph(p)
}

/// `TableCell::new`. Claims: no paragraphs, no width.
#[verifier::external_body]
fn cell_new() -> (c: docx_rs::TableCell)
    ensures
        cell_paragraphs(c) == Seq::<ParaView>::empty(),
        cell_dxa_width(c) == None::<usize>,
{
    docx_rs::TableCell::new()
}

/// `TableCell::add_paragraph`. Claims: appends the paragraph; width unchanged.
#[verifier::external_body]
fn cell_add_paragraph(c: docx_rs::TableCell, p: docx_rs::Paragraph) -> (res: docx_rs::TableCell)
    ensures
        cell_paragraphs(res) == cell_paragraphs(c).push(paragraph_of(p)),
        cell_dxa_width(res) == cell_dxa_width(c),
{
    c.add_paragraph(p)
}

/// `TableCell::width` in `WidthType::Dxa`. Claims: sets the width;
/// paragraphs unchanged.
#[verifier::external_body]
fn cell_width_dxa(c: docx_rs::TableCell, w: usize) -> (res: docx_rs::TableCell)
    ensures
        cell_paragraphs(res) == cell_paragraphs(c),
        cell_dxa_width(res) == Some(w),
{
    c.width(w, docx_rs::WidthType::Dxa)
}

/// `TableRow::new`. Claims: the row holds the given cells in order.
#[verifier::external_body]
fn row_new(cells: Vec<docx_rs::TableCell>) -> (r: docx_rs::TableRow)
    ensures
        row_cells(r) == cells@.map_values(|c: docx_rs::TableCell| cell_of(c)),
{
    docx_rs::TableRow::new(cells)
}

/// `Table::new`. Claims: the table holds the given rows in order, with
/// the default (not cleared) borders.
#[verifier::external_body]
fn table_new(rows: Vec<docx_rs::TableRow>) -> (t: docx_rs::Table)
    ensures
        table_rows(t) == rows@.map_values(|r: docx_rs::TableRow| row_cells(r)),
        !table_borders_cleared(t),
{
    docx_rs::Table::new(rows)
}

/// `Table::set_borders`. Claims: the table's borders are those given; rows
/// unchanged.
#[verifier::external_body]
fn table_set_borders(t: docx_rs::Table, b: docx_rs::TableBorders) -> (res: docx_rs::Table)
    ensures
        table_rows(res) == table_rows(t),
        table_borders_cleared(res) == borders_cleared(b),
{
    t.set_borders(b)
}

/// `TableBorders::new`. Claims: the default single borders, not cleared.
#[verifier::external_body]
fn borders_new() -> (b: docx_rs::TableBorders)
    ensures
        !borders_cleared(b),
{
    docx_rs::TableBorders::new()
}

/// `TableBorders::clear_all`. Claims: all borders cleared.
#[verifier::external_body]
fn borders_clear_all(b: docx_rs::TableBorders) -> (res: docx_rs::TableBorders)
    ensures
        borders_cleared(res),
{
    b.clear_all()
}

/// `RunFonts::new`. Claims: no ASCII or high-ANSI font.
#[verifier::external_body]
fn fonts_new() -> (f: docx_rs::RunFonts)
    ensures
        font_names(f) == (None::<Seq<char>>, None::<Seq<char>>),
{
    docx_rs::RunFonts::new()
}

/// `RunFonts::ascii`. Claims: sets the ASCII font; high ANSI unchanged.
#[verifier::external_body]
fn fonts_ascii(f: docx_rs::RunFonts, name: &str) -> (res: docx_rs::RunFonts)
    ensures
        font_names(res) == (Some(name@), font_names(f).1),
{
    f.ascii(name)
}

/// `RunFonts::hi_ansi`. Claims: sets the high-ANSI font; ASCII unchanged.
#[verifier::external_body]
fn fonts_hi_ansi(f: docx_rs::RunFonts, name: &str) -> (res: docx_rs::RunFonts)
    ensures
        font_names(res) == (font_names(f).0, Some(name@)),
{
    f.hi_ansi(name)
}

/// `PageMargin::new`. Claims: the defaults top 1985, left, bottom and
/// right 1701.
#[verifier::external_body]
fn margin_new() -> (m: docx_rs::PageMargin)
    ensures
        margin_sides(m) == (1985i32, 1701i32, 1701i32, 1701i32),
{
    docx_rs::PageMargin::new()
}

/// `PageMargin::top`. Claims: sets the top margin only.
#[verifier::external_body]
fn margin_top(m: docx_rs::PageMargin, v: i32) -> (res: docx_rs::PageMargin)
    ensures
        margin_sides(res) == (v, margin_sides(m).1, margin_sides(m).2, margin_sides(m).3),
{
    m.top(v)
}

/// `PageMargin::left`. Claims: sets the left margin only.
#[verifier::external_body]
fn margin_left(m: docx_rs::PageMargin, v: i32) -> (res: docx_rs::PageMargin)
    ensures
        margin_sides(res) == (margin_sides(m).0, v, margin_sides(m).2, margin_sides(m).3),
{
    m.left(v)
}

/// `PageMargin::bottom`. Claims: sets the bottom margin only.
#[verifier::external_body]
fn margin_bottom(m: docx_rs::PageMargin, v: i32) -> (res: docx_rs::PageMargin)
    ensures
        margin_sides(res) == (margin_sides(m).0, margin_sides(m).1, v, margin_sides(m).3),
{
    m.bottom(v)
}

/// `PageMargin::right`. Claims: sets the right margin only.
#[verifier::external_body]
fn margin_right(m: docx_rs::PageMargin, v: i32) -> (res: docx_rs::PageMargin)
    ensures
        margin_sides(res) == (margin_sides(m).0, margin_sides(m).1, margin_sides(m).2, v),
{
    m.right(v)
}

/// `Docx::new`. Claims: an empty body.
#[verifier::external_body]
fn docx_new() -> (d: docx_rs::Docx)
    ensures
        docx_body(d) == Seq::<DocBlock>::empty(),
{
    docx_rs::Docx::new()
}

/// `Docx::default_fonts`. Claims: sets the default fonts; body and other
/// settings unchanged.
#[verifier::external_body]
fn docx_default_fonts(d: docx_rs::Docx, f: docx_rs::RunFonts) -> (res: docx_rs::Docx)
    ensures
        docx_body(res) == docx_body(d),
        docx_setup(res) == (DocSetup { fonts: Some(font_names(f)), ..docx_setup(d) }),
{
    d.default_fonts(f)
}

/// `Docx::default_size`. Claims: sets the default size; body and other
/// settings unchanged.
#[verifier::external_body]
fn docx_default_size(d: docx_rs::Docx, size: usize) -> (res: docx_rs::Docx)
    ensures
        docx_body(res) == docx_body(d),
        docx_setup(res) == (DocSetup { size: Some(size), ..docx_setup(d) }),
{
    d.default_size(size)
}

/// `Docx::page_margin`. Claims: sets the page margins; body and other
/// settings unchanged.
#[verifier::external_body]
fn docx_page_margin(d: docx_rs::Docx, m: docx_rs::PageMargin) -> (res: docx_rs::Docx)
    ensures
        docx_body(res) == docx_body(d),
        docx_setup(res) == (DocSetup { margins: Some(margin_sides(m)), ..docx_setup(d) }),
{
    d.page_margin(m)
}

/// `Docx::header`. Claims: sets the default header; body and other
/// settings unchanged.
#[verifier::external_body]
fn docx_header(d: docx_rs::Docx, h: docx_rs::Header) -> (res: docx_rs::Docx)
    ensures
        docx_body(res) == docx_body(d),
        docx_setup(res) == (DocSetup { header: Some(header_paragraphs(h)), ..docx_setup(d) }),
{
    d.header(h)
}

/// `Docx::first_header`. Claims: sets the first-page header; body and other
/// settings unchanged.
#[verifier::external_body]
fn docx_first_header(d: docx_rs::Docx, h: docx_rs::Header) -> (res: docx_rs::Docx)
    ensures
        docx_body(res) == docx_body(d),
        docx_setup(res) == (DocSetup { first_header: Some(header_paragraphs(h)), ..docx_setup(d) }),
{
    d.first_header(h)
}

/// `Docx::add_paragraph`. Claims: appends the paragraph to the body;
/// settings unchanged.
#[verifier::external_body]
fn docx_add_paragraph(d: docx_rs::Docx, p: docx_rs::Paragraph) -> (res: docx_rs::Docx)
    ensures
        docx_body(res) == docx_body(d).push(DocBlock::Para(paragraph_of(p))),
        docx_setup(res) == docx_setup(d),
{
    d.add_paragraph(p)
}

/// `Docx::add_table`. Claims: appends the table to the body; settings
/// unchanged.
#[verifier::external_body]
fn docx_add_table(d: docx_rs::Docx, t: docx_rs::Table) -> (res: docx_rs::Docx)
    ensures
        docx_body(res) == docx_body(d).push(DocBlock::Table(table_rows(t), table_borders_cleared(t))),
        docx_setup(res) == docx_setup(d),
{
    d.add_table(t)
}

/// A piece as the document stores it: texts without line feeds.
pub open spec fn stored_piece(p: PieceView) -> PieceView {
    match p {
        PieceView::Text(t) => PieceView::Text(without_line_feeds(t)),
        _ => p,
    }
}

/// A run as the document stores it.
pub open spec fn stored_run(r: RunView) -> RunView {
    RunView { pieces: r.pieces.map_values(|p: PieceView| stored_piece(p)), bold: r.bold, italic: r.italic }
}

/// A paragraph as the document stores it.
pub open spec fn stored_para(p: ParaView) -> ParaView {
    ParaView { format: p.format, runs: p.runs.map_values(|r: RunView| stored_run(r)) }
}

/// A cell of the title-page table: one paragraph, 3000 twentieths of a
/// point wide.
pub open spec fn contact_cell(p: ParaView) -> CellView {
    CellView { paragraphs: seq![stored_para(p)], dxa_width: Some(3000) }
}

/// A block of the manuscript as the document stores it; the contact table
/// is a borderless table of one row of two cells.
pub open spec fn stored_block(b: BlockView) -> DocBlock {
    match b {
        BlockView::Para(p) => DocBlock::Para(stored_para(p)),
        BlockView::ContactTable(l, r) => DocBlock::Table(seq![seq![contact_cell(l), contact_cell(r)]], true),
    }
}

/// The document settings of a manuscript: its header from the second page
/// on, an empty first-page header, Times New Roman 12 pt, one-inch margins.
pub open spec fn manuscript_setup(header: ParaView) -> DocSetup {
    DocSetup {
        header: Some(seq![stored_para(header)]),
        first_header: Some(seq![]),
        fonts: Some((Some("Times New Roman"@), Some("Times New Roman"@))),
        size: Some(24),
        margins: Some((1440i32, 1440i32, 1440i32, 1440i32)),
    }
}

fn render_run(r: &TextRun) -> (res: docx_rs::Run)
    ensures
        run_of(res) == stored_run(r@),
{
    let mut run = run_new();
    let mut i: usize = 0;
    let ghost ps = r@.pieces;
    while i < r.pieces.len()
        invariant
            i <= r.pieces@.len(),
            ps == r@.pieces,
            ps.len() == r.pieces@.len(),
            run_pieces(run) == ps.take(i as int).map_values(|p: PieceView| stored_piece(p)),
            run_style(run) == (false, false),
        decreases r.pieces@.len() - i,
    {
        assert(ps[i as int] == r.pieces@[i as int]@);
        match &r.pieces[i] {
            Piece::Text(t) => {
                run = run_add_text(run, t.as_str());
            },
            Piece::Break(b) => {
                run = run_add_break(run, *b);
            },
            Piece::Field(f) => {
                run = run_add_field_char(run, *f);
            },
            Piece::PageInstr => {
                run = run_add_page_instr(run);
            },
        }
        assert(ps.take(i + 1) == ps.take(i as int).push(ps[i as int]));
        assert(run_pieces(run) == ps.take(i + 1).map_values(|p: PieceView| stored_piece(p)));
        i = i + 1;
    }
    assert(ps.take(i as int) == ps);
    if r.bold {
        run = run_bold(run);
    }
    if r.italic {
        run = run_italic(run);
    }
    run
}

fn render_para(p: &Para) -> (res: docx_rs::Paragraph)
    ensures
        paragraph_of(res) == stored_para(p@),
{
    let mut para = paragraph_new();
    let mut i: usize = 0;
    let ghost rs = p@.runs;
    while i < p.runs.len()
        invariant
            i <= p.runs@.len(),
            rs == p@.runs,
            rs.len() == p.runs@.len(),
            paragraph_runs(para) == rs.take(i as int).map_values(|r: RunView| stored_run(r)),
            paragraph_format(para) == (ParaFormat { align: None, line_spacing: None, indent: None }),
        decreases p.runs@.len() - i,
    {
        assert(rs[i as int] == p.runs@[i as int]@);
        let run = render_run(&p.runs[i]);
        para = paragraph_add_run(para, run);
        assert(rs.take(i + 1) == rs.take(i as int).push(rs[i as int]));
        assert(paragraph_runs(para) == rs.take(i + 1).map_values(|r: RunView| stored_run(r)));
        i = i + 1;
    }
    assert(rs.take(i as int) == rs);
    match p.format.align {
        Some(a) => {
            para = paragraph_align(para, a);
        },
        None => {},
    }
    match p.format.line_spacing {
        Some(l) => {
            let s = line_spacing_set_line(line_spacing_new(), l);
            para = paragraph_line_spacing(para, s);
        },
        None => {},
    }
    match p.format.indent {
        Some(ind) => {
            para = paragraph_indent(para, ind);
        },
        None => {},
    }
    assert(paragraph_format(para) == p.format);
    para
}

fn render_contact_cell(p: &Para) -> (c: docx_rs::TableCell)
    ensures
        cell_of(c) == contact_cell(p@),
{
    let c = cell_width_dxa(cell_add_paragraph(cell_new(), render_para(p)), 3000);
    assert(cell_paragraphs(c) == seq![stored_para(p@)]);
    c
}

fn render_block(d: docx_rs::Docx, b: &Block) -> (res: docx_rs::Docx)
    ensures
        docx_body(res) == docx_body(d).push(stored_block(b@)),
        docx_setup(res) == docx_setup(d),
{
    match b {
        Block::Para(p) => docx_add_paragraph(d, render_para(p)),
        Block::ContactTable(l, r) => {
            let mut cells: Vec<docx_rs::TableCell> = Vec::new();
            cells.push(render_contact_cell(l));
            cells.push(render_contact_cell(r));
            let row = row_new(cells);
            assert(row_cells(row) == seq![contact_cell(l@), contact_cell(r@)]);
            let mut rows: Vec<docx_rs::TableRow> = Vec::new();
            rows.push(row);
            let t = table_set_borders(table_new(rows), borders_clear_all(borders_new()));
            assert(table_rows(t) == seq![seq![contact_cell(l@), contact_cell(r@)]]);
            docx_add_table(d, t)
        },
    }
}

/// Builds the Word document of a laid-out manuscript: Times New Roman
/// 12 pt, one-inch margins, the header on every page but the first, and the
/// body block by block.
pub fn render_docx(m: &Manuscript) -> (d: docx_rs::Docx)
    ensures
        docx_body(d) == m@.body.map_values(|b: BlockView| stored_block(b)),
        docx_setup(d) == manuscript_setup(m@.header),
{
    let fonts = fonts_hi_ansi(fonts_ascii(fonts_new(), "Times New Roman"), "Times New Roman");
    let margins = margin_right(
        margin_left(margin_bottom(margin_top(margin_new(), 1440), 1440), 1440),
        1440,
    );
    let mut d = docx_page_margin(docx_default_size(docx_default_fonts(docx_new(), fonts), 24), margins);
    let header = header_add_paragraph(header_new(), render_para(&m.header));
    d = docx_header(d, header);
    d = docx_first_header(d, header_new());
    let ghost body = m@.body;
    let mut i: usize = 0;
    while i < m.body.len()
        invariant
            i <= m.body@.len(),
            body == m@.body,
            body.len() == m.body@.len(),
            docx_body(d) == body.take(i as int).map_values(|b: BlockView| stored_block(b)),
            docx_setup(d) == manuscript_setup(m@.header),
        decreases m.body@.len() - i,
    {
        assert(body[i as int] == m.body@[i as int]@);
        d = render_block(d, &m.body[i]);
        assert(body.take(i + 1) == body.take(i as int).push(body[i as int]));
        assert(docx_body(d) == body.take(i + 1).map_values(|b: BlockView| stored_block(b)));
        i = i + 1;
    }
    assert(body.take(i as int) == body);
    d
}

} // verus!
