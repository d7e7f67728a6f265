//! The manuscript as a document: paragraphs of formatted runs, as the
//! library lays them out before anything is written.
use vstd::prelude::*;

verus! {

/// Horizontal alignment of a paragraph.
#[derive(Clone, Copy, PartialEq, Eq, Debug)]
pub enum Align {
    Center,
    Right,
}

/// A break inside a run.
#[derive(Clone, Copy, PartialEq, Eq, Debug)]
pub enum BreakKind {
    /// Starts a new page.
    Page,
    /// Starts a new line in the same paragraph.
    TextWrapping,
}

/// The three markers of a field (such as the page number).
#[derive(Clone, Copy, PartialEq, Eq, Debug)]
pub enum FieldKind {
    Begin,
    Separate,
    End,
}

/// One piece of a run.
#[derive(Debug)]
pub enum Piece {
    Text(String),
    Break(BreakKind),
    Field(FieldKind),
    /// The instruction of a `PAGE` field: the current page number.
    PageInstr,
}

/// One piece of a run, as a mathematical value.
pub enum PieceView {
    Text(Seq<char>),
    Break(BreakKind),
    Field(FieldKind),
    PageInstr,
}

impl View for Piece {
    type V = PieceView;

    open spec fn view(&self) -> PieceView {
        match self {
            Piece::Text(t) => PieceView::Text(t@),
            Piece::Break(b) => PieceView::Break(*b),
            Piece::Field(f) => PieceView::Field(*f),
            Piece::PageInstr => PieceView::PageInstr,
        }
    }
}

/// A run: a sequence of pieces in one character format.
#[derive(Debug)]
pub struct TextRun {
    pub pieces: Vec<Piece>,
    pub bold: bool,
    pub italic: bool,
}

pub struct RunView {
    pub pieces: Seq<PieceView>,
    pub bold: bool,
    pub italic: bool,
}

pub open spec fn pieces_view(v: Seq<Piece>) -> Seq<PieceView> {
    v.map_values(|p: Piece| p@)
}

impl View for TextRun {
    type V = RunView;

    open spec fn view(&self) -> RunView {
        RunView { pieces: pieces_view(self.pieces@), bold: self.bold, italic: self.italic }
    }
}

/// Paragraph indentation, in twentieths of a point.
#[derive(Clone, Copy, PartialEq, Eq, Debug)]
pub struct Indent {
    pub left: Option<i32>,
    pub first_line: Option<i32>,
    pub end: Option<i32>,
}

/// The format of a paragraph: alignment, line spacing (in 240ths of a line)
/// and indentation; `None` leaves the document default.
#[derive(Clone, Copy, PartialEq, Eq, Debug)]
pub struct ParaFormat {
    pub align: Option<Align>,
    pub line_spacing: Option<i32>,
    pub indent: Option<Indent>,
}

/// A paragraph: its format and its runs.
#[derive(Debug)]
pub struct Para {
    pub format: ParaFormat,
    pub runs: Vec<TextRun>,
}

pub struct ParaView {
    pub format: ParaFormat,
    pub runs: Seq<RunView>,
}

pub open spec fn runs_view(v: Seq<TextRun>) -> Seq<RunView> {
    v.map_values(|r: TextRun| r@)
}

impl View for Para {
    type V = ParaView;

    open spec fn view(&self) -> ParaView {
        ParaView { format: self.format, runs: runs_view(self.runs@) }
    }
}

/// A block of the document body.
#[derive(Debug)]
pub enum Block {
    Para(Para),
    /// The borderless table at the top of the title page: contact details on
    /// the left, the word count on the right.
    ContactTable(Para, Para),
}

pub enum BlockView {
    Para(ParaView),
    ContactTable(ParaView, ParaView),
}

impl View for Block {
    type V = BlockView;

    open spec fn view(&self) -> BlockView {
        match self {
            Block::Para(p) => BlockView::Para(p@),
            Block::ContactTable(l, r) => BlockView::ContactTable(l@, r@),
        }
    }
}

pub open spec fn blocks_view(v: Seq<Block>) -> Seq<BlockView> {
    v.map_values(|b: Block| b@)
}

/// A whole manuscript: the page header (shown from the second page on; the
/// first page has an empty header) and the body.
#[derive(Debug)]
pub struct Manuscript {
    pub header: Para,
    pub body: Vec<Block>,
}

pub struct ManuscriptView {
    pub header: ParaView,
    pub body: Seq<BlockView>,
}

impl View for Manuscript {
    type V = ManuscriptView;

    open spec fn view(&self) -> ManuscriptView {
        ManuscriptView { header: self.header@, body: blocks_view(self.body@) }
    }
}

/// The format of a paragraph with no format of its own.
pub open spec fn plain_format() -> ParaFormat {
    ParaFormat { align: None, line_spacing: None, indent: None }
}

/// A paragraph with the given format and runs.
pub open spec fn para_view(format: ParaFormat, runs: Seq<RunView>) -> ParaView {
    ParaView { format, runs }
}

/// A run holding only a break.
pub open spec fn break_run_view(kind: BreakKind) -> RunView {
    RunView { pieces: seq![PieceView::Break(kind)], bold: false, italic: false }
}

/// A run of one piece of text.
pub open spec fn text_run_view(text: Seq<char>, bold: bool, italic: bool) -> RunView {
    RunView { pieces: seq![PieceView::Text(text)], bold, italic }
}

pub fn plain() -> (f: ParaFormat)
    ensures
        f == plain_format(),
{
    ParaFormat { align: None, line_spacing: None, indent: None }
}

pub fn aligned(a: Align) -> (f: ParaFormat)
    ensures
        f == (ParaFormat { align: Some(a), line_spacing: None, indent: None }),
{
    ParaFormat { align: Some(a), line_spacing: None, indent: None }
}

/// A run holding only `text`.
pub fn text_run(text: String, bold: bool, italic: bool) -> (r: TextRun)
    ensures
        r@ == text_run_view(text@, bold, italic),
{
    let mut pieces: Vec<Piece> = Vec::new();
    pieces.push(Piece::Text(text));
    let r = TextRun { pieces, bold, italic };
    assert(r@.pieces == seq![PieceView::Text(text@)]);
    r
}

/// A run holding only a break.
pub fn break_run(kind: BreakKind) -> (r: TextRun)
    ensures
        r@ == break_run_view(kind),
{
    let mut pieces: Vec<Piece> = Vec::new();
    pieces.push(Piece::Break(kind));
    let r = TextRun { pieces, bold: false, italic: false };
    assert(r@.pieces == seq![PieceView::Break(kind)]);
    r
}

/// Appends a piece to a run.
pub fn push_piece(r: &mut TextRun, p: Piece)
    ensures
        final(r)@ == (RunView { pieces: old(r)@.pieces.push(p@), ..old(r)@ }),
{
    let ghost old_pieces = r.pieces@;
    r.pieces.push(p);
    assert(pieces_view(r.pieces@) == pieces_view(old_pieces).push(p@));
}

/// Appends a run to a list of runs.
pub fn push_run(v: &mut Vec<TextRun>, r: TextRun)
    ensures
        runs_view(final(v)@) == runs_view(old(v)@).push(r@),
{
    let ghost old_v = v@;
    v.push(r);
    assert(runs_view(v@) == runs_view(old_v).push(r@));
}

/// A paragraph with `format` and `runs`.
pub fn para(format: ParaFormat, runs: Vec<TextRun>) -> (p: Para)
    ensures
        p@ == para_view(format, runs_view(runs@)),
{
    Para { format, runs }
}

/// A paragraph with `format` and no runs.
pub fn empty_para(format: ParaFormat) -> (p: Para)
    ensures
        p@ == para_view(format, seq![]),
{
    let p = Para { format, runs: Vec::new() };
    assert(runs_view(p.runs@) == Seq::<RunView>::empty());
    p
}

/// A paragraph holding one run.
pub fn para_of_run(format: ParaFormat, r: TextRun) -> (p: Para)
    ensures
        p@ == para_view(format, seq![r@]),
{
    let mut runs: Vec<TextRun> = Vec::new();
    push_run(&mut runs, r);
    assert(runs_view(Seq::<TextRun>::empty()) == Seq::<RunView>::empty());
    Para { format, runs }
}

/// Appends a block to a list of blocks.
pub fn push_block(v: &mut Vec<Block>, b: Block)
    ensures
        blocks_view(final(v)@) == blocks_view(old(v)@).push(b@),
{
    let ghost old_v = v@;
    v.push(b);
    assert(blocks_view(v@) == blocks_view(old_v).push(b@));
}

/// Appends all blocks of `more` to `v`.
pub fn append_blocks(v: &mut Vec<Block>, more: Vec<Block>)
    ensures
        blocks_view(final(v)@) == blocks_view(old(v)@) + blocks_view(more@),
{
    let ghost old_v = v@;
    let ghost more_v = more@;
    let mut more = more;
    v.append(&mut more);
    assert(blocks_view(v@) == blocks_view(old_v) + blocks_view(more_v));
}

} // verus!
