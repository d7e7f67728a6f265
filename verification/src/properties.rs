//! Properties that pin down what the manuscript is made of: how words are
//! counted, how lines become paragraphs, what the title page and the
//! separators hold, and how the document is written.
use vstd::prelude::*;
use crate::docx::{stored_block, DocBlock};
use crate::markup::{is_heading, line_paragraph, line_runs, paragraphs_of_lines, split_markers, styled_runs, toggled};
use crate::chars::lines;
use crate::config::{source_text, Config, Source, StructureItem};
use crate::layout::{
    aligned_format, body_blocks, chapter_blocks, chapter_heading, double_spaced, entry_text_blocks,
    file_blocks, heading_blocks, item_blocks, page_break, part_chapters, part_title_blocks,
    scene_blocks, scene_break, separator, text_blocks, title_page, title_spacing, uppercase,
    StoryKind,
};
use crate::model::{text_run_view, Align, BreakKind, PieceView, RunView, BlockView, Indent, ParaFormat, ParaView};
use crate::chars::{is_ws, trim, trim_end, trim_start, word_count, word_starts_at, words_from};

verus! {

proof fn lemma_words_from_push(s: Seq<char>, c: char, i: int)
    requires
        0 <= i <= s.len(),
    ensures
        words_from(s.push(c), i) == words_from(s, i) + if !is_ws(c) && (s.len() == 0 || is_ws(s.last())) {
            1nat
        } else {
            0nat
        },
    decreases s.len() - i,
{
    let t = s.push(c);
    if i < s.len() {
        lemma_words_from_push(s, c, i + 1);
        assert(t[i] == s[i]);
        if i > 0 {
            assert(t[i - 1] == s[i - 1]);
        }
        assert(word_starts_at(t, i) == word_starts_at(s, i));
    } else {
        assert(t[i] == c);
        if i > 0 {
            assert(t[i - 1] == s.last());
        }
        assert(words_from(t, i + 1) == 0);
    }
}

/// Law: words are counted as `split_whitespace` counts them, character by
/// character: an empty text has none, and a character adds a word exactly
/// when it is not whitespace and follows whitespace or nothing. So
/// whitespace never adds a word (two spaces count as one), and a
/// non-whitespace character right after another adds none.
pub proof fn law_words_are_runs_of_non_whitespace(s: Seq<char>, c: char)
    ensures
        word_count(Seq::<char>::empty()) == 0,
        word_count(s.push(c)) == word_count(s) + if !is_ws(c) && (s.len() == 0 || is_ws(s.last())) {
            1nat
        } else {
            0nat
        },
        is_ws(c) ==> word_count(s.push(c)) == word_count(s),
{
    lemma_words_from_push(s, c, 0);
}

/// Law: whitespace separates words: the words of `a`, a whitespace
/// character and `b` are those of `a` plus those of `b`; in particular
/// `a b` holds two words where `a` and `b` are words.
pub proof fn law_words_split_at_whitespace(a: Seq<char>, w: char, b: Seq<char>)
    requires
        is_ws(w),
    ensures
        word_count(a + seq![w] + b) == word_count(a) + word_count(b),
    decreases b.len(),
{
    if b.len() == 0 {
        assert(a + seq![w] + b == a.push(w));
        law_words_are_runs_of_non_whitespace(a, w);
        assert(word_count(b) == 0);
    } else {
        let b0 = b.drop_last();
        let c = b.last();
        law_words_split_at_whitespace(a, w, b0);
        assert(a + seq![w] + b == (a + seq![w] + b0).push(c));
        assert(b == b0.push(c));
        law_words_are_runs_of_non_whitespace(a + seq![w] + b0, c);
        law_words_are_runs_of_non_whitespace(b0, c);
        if b0.len() == 0 {
            assert((a + seq![w] + b0).last() == w);
        } else {
            assert((a + seq![w] + b0).last() == b0.last());
        }
    }
}

/// Law: a word (a non-empty text without whitespace) counts one, and any
/// number of whitespace characters count none.
pub proof fn law_single_word_and_blank(word: Seq<char>, blank: Seq<char>)
    ensures
        word.len() > 0 && (forall|k: int| 0 <= k < word.len() ==> !is_ws(#[trigger] word[k])) ==> word_count(word) == 1,
        (forall|k: int| 0 <= k < blank.len() ==> is_ws(#[trigger] blank[k])) ==> word_count(blank) == 0,
    decreases word.len() + blank.len(),
{
    if word.len() > 0 {
        law_single_word_and_blank(word.drop_last(), Seq::<char>::empty());
        law_words_are_runs_of_non_whitespace(word.drop_last(), word.last());
        assert(word.drop_last().push(word.last()) == word);
        if word.len() > 1 {
            assert(word.drop_last().last() == word[word.len() - 2]);
        }
        if forall|k: int| 0 <= k < word.len() ==> !is_ws(#[trigger] word[k]) {
            assert forall|k: int| 0 <= k < word.drop_last().len() implies !is_ws(#[trigger] word.drop_last()[k]) by {
                assert(word.drop_last()[k] == word[k]);
            }
            assert(!is_ws(word.last()));
        }
    }
    if blank.len() > 0 {
        law_single_word_and_blank(Seq::<char>::empty(), blank.drop_last());
        law_words_are_runs_of_non_whitespace(blank.drop_last(), blank.last());
        assert(blank.drop_last().push(blank.last()) == blank);
        if forall|k: int| 0 <= k < blank.len() ==> is_ws(#[trigger] blank[k]) {
            assert forall|k: int| 0 <= k < blank.drop_last().len() implies is_ws(#[trigger] blank.drop_last()[k]) by {
                assert(blank.drop_last()[k] == blank[k]);
            }
            assert(is_ws(blank.last()));
        }
    }
    law_words_are_runs_of_non_whitespace(Seq::<char>::empty(), ' ');
}

/// Law: every table of the written document is the title page's layout
/// table: invisible (all borders cleared), one row of two cells 3000
/// twentieths of a point wide; and the blocks written as tables are
/// exactly the contact tables, every other block a paragraph. (`render_docx`
/// writes each block `b` of the manuscript as `stored_block(b)`.)
pub proof fn law_tables_are_borderless(b: BlockView)
    ensures
        match stored_block(b) {
            DocBlock::Table(rows, cleared) => {
                &&& cleared
                &&& b is ContactTable
                &&& rows.len() == 1
                &&& rows[0].len() == 2
                &&& rows[0][0].dxa_width == Some(3000usize)
                &&& rows[0][1].dxa_width == Some(3000usize)
            },
            DocBlock::Para(_) => b is Para,
        },
{
}

proof fn lemma_trim_start_shape(s: Seq<char>)
    ensures
        trim_start(s).len() > 0 ==> !is_ws(trim_start(s)[0]),
        trim_start(s) == s.skip(s.len() - trim_start(s).len()),
        trim_start(s).len() <= s.len(),
    decreases s.len(),
{
    if s.len() > 0 && is_ws(s[0]) {
        lemma_trim_start_shape(s.drop_first());
        assert(s.drop_first().skip(s.drop_first().len() - trim_start(s).len()) == s.skip(
            s.len() - trim_start(s).len(),
        ));
    } else {
        assert(s.skip(0) == s);
    }
}

proof fn lemma_trim_end_shape(s: Seq<char>)
    ensures
        trim_end(s).len() > 0 ==> !is_ws(trim_end(s).last()),
        trim_end(s) == s.take(trim_end(s).len() as int),
        trim_end(s).len() <= s.len(),
    decreases s.len(),
{
    if s.len() > 0 && is_ws(s.last()) {
        lemma_trim_end_shape(s.drop_last());
        assert(s.drop_last().take(trim_end(s).len() as int) == s.take(trim_end(s).len() as int));
    } else {
        assert(s.take(s.len() as int) == s);
    }
}

/// Trimming twice is trimming once.
proof fn lemma_trim_twice(s: Seq<char>)
    ensures
        trim(trim(s)) == trim(s),
{
    let u = trim_start(s);
    let v = trim_end(u);
    lemma_trim_start_shape(s);
    lemma_trim_end_shape(u);
    if v.len() > 0 {
        assert(v[0] == u[0]);
        assert(!is_ws(v[0]));
        assert(trim_start(v) == v);
        assert(!is_ws(v.last()));
        assert(trim_end(v) == v);
    } else {
        assert(trim_start(v) == v);
        assert(trim_end(v) == v);
    }
}

/// Law: a line of a manuscript file is trimmed before it becomes a
/// paragraph: whitespace at either end of a line changes nothing; a prose
/// line (neither blank, a heading nor a quote) becomes a double-spaced
/// paragraph indented half an inch on its first line whose runs are those
/// of the trimmed line; a line starting with `>` becomes a double-spaced
/// paragraph indented half an inch on both sides whose runs are those of
/// the rest of the line, trimmed.
pub proof fn law_lines_are_trimmed(line: Seq<char>)
    ensures
        line_paragraph(line) == line_paragraph(trim(line)),
        trim(line).len() > 0 && !is_heading(trim(line)) && trim(line)[0] != '>' ==> line_paragraph(line)
            == Some(
            ParaView {
                format: ParaFormat {
                    align: None,
                    line_spacing: Some(480i32),
                    indent: Some(Indent { left: None, first_line: Some(720i32), end: None }),
                },
                runs: line_runs(trim(line)),
            },
        ),
        trim(line).len() > 0 && !is_heading(trim(line)) && trim(line)[0] == '>' ==> line_paragraph(line)
            == Some(
            ParaView {
                format: ParaFormat {
                    align: None,
                    line_spacing: Some(480i32),
                    indent: Some(Indent { left: Some(720i32), first_line: None, end: Some(720i32) }),
                },
                runs: line_runs(trim(trim(line).skip(1))),
            },
        ),
{
    lemma_trim_twice(line);
    let t = trim(line);
    if t.len() > 0 && t[0] == '>' {
        lemma_trim_start_shape(line);
        lemma_trim_end_shape(trim_start(line));
        let r = t.skip(1);
        lemma_trim_start_shape(r);
        let u = trim_start(r);
        if u.len() > 0 {
            assert(u.last() == r.last());
            assert(r.last() == t.last());
            assert(!is_ws(u.last()));
        }
        assert(trim_end(u) == u);
    }
}

/// Law: the paragraphs of a file are those of its lines trimmed.
pub proof fn law_paragraphs_of_trimmed_lines(ls: Seq<Seq<char>>)
    ensures
        paragraphs_of_lines(ls) == paragraphs_of_lines(ls.map_values(|l: Seq<char>| trim(l))),
    decreases ls.len(),
{
    if ls.len() > 0 {
        law_paragraphs_of_trimmed_lines(ls.drop_last());
        let t = ls.map_values(|l: Seq<char>| trim(l));
        assert(t.drop_last() == ls.drop_last().map_values(|l: Seq<char>| trim(l)));
        assert(t.last() == trim(ls.last()));
        law_lines_are_trimmed(ls.last());
    }
}

/// Law: on the title page, below the upper-cased bold title, the byline
/// paragraph is centred and reads `by`, a line break, and the byline on a
/// line of its own; blank lines above the title number 17 for a short
/// story and 8 otherwise. The page opens with the contact table and ends
/// with a page break for a novel, with three blank lines otherwise.
pub proof fn law_byline_below_the_title(config: Config, kind: StoryKind, words: nat)
    ensures
        ({
            let page = title_page(config, kind, words, false);
            let sp: int = if kind == StoryKind::ShortStory { 17 } else { 8 };
            let centred = ParaFormat { align: Some(Align::Center), line_spacing: None, indent: None };
            let plain = ParaFormat { align: None, line_spacing: None, indent: None };
            &&& page[0] is ContactTable
            &&& kind == StoryKind::Novel ==> page.len() == sp + 4 && page[sp + 3] == BlockView::Para(ParaView {
                format: plain,
                runs: seq![RunView { pieces: seq![PieceView::Break(BreakKind::Page)], bold: false, italic: false }],
            })
            &&& kind != StoryKind::Novel ==> page.len() == sp + 6 && forall|k: int|
                sp + 3 <= k < sp + 6 ==> #[trigger] page[k] == BlockView::Para(ParaView { format: plain, runs: seq![] })
            &&& forall|k: int| 1 <= k <= sp ==> #[trigger] page[k] == BlockView::Para(
                ParaView { format: ParaFormat { align: None, line_spacing: None, indent: None }, runs: seq![] },
            )
            &&& page[sp + 1] == BlockView::Para(ParaView {
                format: centred,
                runs: seq![RunView { pieces: seq![PieceView::Text(uppercase(config.metadata.title@))], bold: true, italic: false }],
            })
            &&& page[sp + 2] == BlockView::Para(ParaView {
                format: centred,
                runs: seq![
                    RunView {
                        pieces: seq![PieceView::Text(seq!['b', 'y']), PieceView::Break(BreakKind::TextWrapping)],
                        bold: false,
                        italic: false,
                    },
                    RunView { pieces: seq![PieceView::Text(config.metadata.byline@)], bold: false, italic: false },
                ],
            })
        }),
{
    reveal_strlit("by");
    let page = title_page(config, kind, words, false);
    let sp: int = if kind == StoryKind::ShortStory { 17 } else { 8 };
    assert(title_spacing(kind) == sp);
    assert("by"@ =~= seq!['b', 'y']);
}

/// Whether a run holds a page break.
pub open spec fn run_breaks_page(r: RunView) -> bool {
    exists|j: int| 0 <= j < r.pieces.len() && r.pieces[j] == PieceView::Break(BreakKind::Page)
}

/// Whether a block is a paragraph holding a page break.
pub open spec fn breaks_page(b: BlockView) -> bool {
    match b {
        BlockView::Para(p) => exists|i: int| 0 <= i < p.runs.len() && #[trigger] run_breaks_page(p.runs[i]),
        BlockView::ContactTable(_, _) => false,
    }
}

/// The number of blocks of `bs` that hold a page break.
pub open spec fn page_breaks(bs: Seq<BlockView>) -> nat
    decreases bs.len(),
{
    if bs.len() == 0 {
        0
    } else {
        page_breaks(bs.drop_last()) + if breaks_page(bs.last()) {
            1nat
        } else {
            0nat
        }
    }
}

/// The number of parts among `items`.
pub open spec fn part_count(items: Seq<StructureItem>) -> nat
    decreases items.len(),
{
    if items.len() == 0 {
        0
    } else {
        part_count(items.drop_last()) + if items.last() is Part {
            1nat
        } else {
            0nat
        }
    }
}

proof fn lemma_page_breaks_add(a: Seq<BlockView>, b: Seq<BlockView>)
    ensures
        page_breaks(a + b) == page_breaks(a) + page_breaks(b),
    decreases b.len(),
{
    if b.len() == 0 {
        assert(a + b == a);
    } else {
        lemma_page_breaks_add(a, b.drop_last());
        assert((a + b).drop_last() == a + b.drop_last());
        assert((a + b).last() == b.last());
    }
}

proof fn lemma_page_breaks_one(x: BlockView)
    ensures
        page_breaks(seq![x]) == if breaks_page(x) {
            1nat
        } else {
            0nat
        },
{
    assert(seq![x].drop_last() == Seq::<BlockView>::empty());
    assert(seq![x].last() == x);
    assert(page_breaks(Seq::<BlockView>::empty()) == 0);
}

proof fn lemma_page_breaks_two(x: BlockView, y: BlockView)
    ensures
        page_breaks(seq![x, y]) == page_breaks(seq![x]) + page_breaks(seq![y]),
{
    assert(seq![x, y] == seq![x] + seq![y]);
    lemma_page_breaks_add(seq![x], seq![y]);
}

/// Runs that hold one text each.
pub open spec fn text_runs_only(rs: Seq<RunView>) -> bool {
    forall|k: int| 0 <= k < rs.len() ==> (#[trigger] rs[k]).pieces.len() == 1 && rs[k].pieces[0] is Text
}

proof fn lemma_text_runs_break_no_page(p: ParaView)
    requires
        text_runs_only(p.runs),
    ensures
        !breaks_page(BlockView::Para(p)),
{
    assert forall|i: int| 0 <= i < p.runs.len() implies !#[trigger] run_breaks_page(p.runs[i]) by {
        let r = p.runs[i];
        assert(r.pieces.len() == 1 && r.pieces[0] is Text);
        if run_breaks_page(r) {
            let j = choose|j: int| 0 <= j < r.pieces.len() && r.pieces[j] == PieceView::Break(BreakKind::Page);
            assert(j == 0);
        }
    }
}

proof fn lemma_styled_text_only(gaps: Seq<Seq<char>>, marks: Seq<Seq<char>>, i: int, bold: bool, italic: bool)
    ensures
        text_runs_only(styled_runs(gaps, marks, i, bold, italic)),
    decreases gaps.len() - i,
{
    if 0 <= i < gaps.len() {
        let next = if i < marks.len() {
            toggled(marks[i], bold, italic)
        } else {
            (bold, italic)
        };
        lemma_styled_text_only(gaps, marks, i + 1, next.0, next.1);
        let rest = styled_runs(gaps, marks, i + 1, next.0, next.1);
        let all = styled_runs(gaps, marks, i, bold, italic);
        if gaps[i].len() > 0 {
            assert forall|k: int| 0 <= k < all.len() implies (#[trigger] all[k]).pieces.len() == 1
                && all[k].pieces[0] is Text by {
                if k > 0 {
                    assert(all[k] == rest[k - 1]);
                }
            }
        } else {
            assert(all == rest);
        }
    }
}

proof fn lemma_lines_break_no_page(ls: Seq<Seq<char>>)
    ensures
        page_breaks(paragraphs_of_lines(ls)) == 0,
    decreases ls.len(),
{
    if ls.len() > 0 {
        lemma_lines_break_no_page(ls.drop_last());
        let before = paragraphs_of_lines(ls.drop_last());
        match line_paragraph(ls.last()) {
            Some(p) => {
                let sp = split_markers(trim(ls.last()));
                let sq = split_markers(trim_start(trim(ls.last()).skip(1)));
                lemma_styled_text_only(sp.0, sp.1, 0, false, false);
                lemma_styled_text_only(sq.0, sq.1, 0, false, false);
                lemma_text_runs_break_no_page(p);
                assert(paragraphs_of_lines(ls).drop_last() == before);
            },
            None => {},
        }
    }
}

proof fn lemma_scenes_break_no_page(sources: Seq<Source>, fs: Seq<String>)
    ensures
        page_breaks(scene_blocks(sources, fs)) == 0,
    decreases fs.len(),
{
    if fs.len() > 0 {
        lemma_scenes_break_no_page(sources, fs.drop_last());
        let sb: Seq<BlockView> = if fs.len() > 1 { seq![scene_break()] } else { seq![] };
        let f = file_blocks(sources, fs.last()@);
        match source_text(sources, fs.last()@) {
            Some(t) => lemma_lines_break_no_page(lines(t)),
            None => {},
        }
        assert(page_breaks(f) == 0);
        lemma_text_runs_break_no_page(ParaView {
            format: double_spaced(Some(Align::Center)),
            runs: seq![text_run_view(seq!['#'], false, false)],
        });
        assert(page_breaks(sb) == 0) by {
            if fs.len() > 1 {
                lemma_page_breaks_one(scene_break());
            }
        }
        lemma_page_breaks_add(scene_blocks(sources, fs.drop_last()), sb);
        lemma_page_breaks_add(scene_blocks(sources, fs.drop_last()) + sb, f);
    }
}

proof fn lemma_entry_breaks_no_page(sources: Seq<Source>, file: Option<String>, files: Option<Vec<String>>)
    ensures
        page_breaks(entry_text_blocks(sources, file, files)) == 0,
{
    match file {
        Some(f) => match source_text(sources, f@) {
            Some(t) => lemma_lines_break_no_page(lines(t)),
            None => {},
        },
        None => match files {
            Some(fs) => lemma_scenes_break_no_page(sources, fs@),
            None => {},
        },
    }
}

proof fn lemma_chapter_breaks_no_page(sources: Seq<Source>, item: StructureItem)
    ensures
        page_breaks(chapter_blocks(sources, item)) == 0,
        page_breaks(text_blocks(sources, item)) == 0,
{
    match item {
        StructureItem::Chapter { title, number, file, files } => {
            lemma_entry_breaks_no_page(sources, file, files);
            match chapter_heading(number, title) {
                Some(h) => {
                    let hb = heading_blocks(h);
                    lemma_text_runs_break_no_page(ParaView {
                        format: aligned_format(Align::Center),
                        runs: seq![text_run_view(h, true, false)],
                    });
                    lemma_page_breaks_two(hb[0], hb[1]);
                    lemma_page_breaks_one(hb[0]);
                    lemma_page_breaks_one(hb[1]);
                    assert(hb == seq![hb[0], hb[1]]);
                    assert(page_breaks(hb) == 0);
                    lemma_page_breaks_add(hb, entry_text_blocks(sources, file, files));
                },
                None => {
                    assert(chapter_blocks(sources, item) == entry_text_blocks(sources, file, files));
                },
            }
        },
        StructureItem::Text { file, files } => lemma_entry_breaks_no_page(sources, file, files),
        _ => {},
    }
}

proof fn lemma_part_chapters_short(sources: Seq<Source>, content: Seq<StructureItem>)
    ensures
        page_breaks(part_chapters(sources, StoryKind::ShortStory, content)) == 0,
    decreases content.len(),
{
    if content.len() > 0 {
        lemma_part_chapters_short(sources, content.drop_last());
        let sep: Seq<BlockView> = if content.len() > 1 { separator(StoryKind::ShortStory) } else { seq![] };
        assert(page_breaks(sep) == 0) by {
            if content.len() > 1 {
                lemma_page_breaks_one(sep[0]);
                assert(sep == seq![sep[0]]);
            }
        }
        lemma_chapter_breaks_no_page(sources, content.last());
        lemma_page_breaks_add(part_chapters(sources, StoryKind::ShortStory, content.drop_last()), sep);
        lemma_page_breaks_add(
            part_chapters(sources, StoryKind::ShortStory, content.drop_last()) + sep,
            chapter_blocks(sources, content.last()),
        );
    }
}

proof fn lemma_item_short(sources: Seq<Source>, item: StructureItem)
    ensures
        page_breaks(item_blocks(sources, StoryKind::ShortStory, item)) == if item is Part {
            1nat
        } else {
            0nat
        },
{
    lemma_chapter_breaks_no_page(sources, item);
    match item {
        StructureItem::Part { title, content } => {
            let tb = part_title_blocks(uppercase(title@));
            lemma_text_runs_break_no_page(ParaView {
                format: aligned_format(Align::Center),
                runs: seq![text_run_view(uppercase(title@), true, false)],
            });
            let pb = page_break();
            assert(run_breaks_page(pb->Para_0.runs[0])) by {
                assert(pb->Para_0.runs[0].pieces[0] == PieceView::Break(BreakKind::Page));
            }
            assert(breaks_page(pb));
            lemma_page_breaks_two(tb[0], tb[1]);
            lemma_page_breaks_one(tb[0]);
            lemma_page_breaks_one(tb[1]);
            assert(tb == seq![tb[0], tb[1]]);
            assert(page_breaks(tb) == 1);
            lemma_part_chapters_short(sources, content@);
            lemma_page_breaks_add(tb, part_chapters(sources, StoryKind::ShortStory, content@));
        },
        _ => {},
    }
}

/// Law: what separates the entries of a manuscript: a paragraph holding
/// only a page break in a novel, one empty plain paragraph in a short
/// story, nothing otherwise. So a short story runs on without page breaks:
/// the only page breaks in its body are those after the part titles, one
/// per part.
pub proof fn law_short_stories_run_on(sources: Seq<Source>, items: Seq<StructureItem>)
    ensures
        separator(StoryKind::Novel) == seq![
            BlockView::Para(ParaView {
                format: ParaFormat { align: None, line_spacing: None, indent: None },
                runs: seq![RunView { pieces: seq![PieceView::Break(BreakKind::Page)], bold: false, italic: false }],
            }),
        ],
        separator(StoryKind::ShortStory) == seq![
            BlockView::Para(ParaView { format: ParaFormat { align: None, line_spacing: None, indent: None }, runs: seq![] }),
        ],
        separator(StoryKind::Other) == Seq::<BlockView>::empty(),
        page_breaks(body_blocks(sources, StoryKind::ShortStory, items)) == part_count(items),
    decreases items.len(),
{
    if items.len() > 0 {
        law_short_stories_run_on(sources, items.drop_last());
        let sep: Seq<BlockView> = if items.len() > 1 { separator(StoryKind::ShortStory) } else { seq![] };
        assert(page_breaks(sep) == 0) by {
            if items.len() > 1 {
                lemma_page_breaks_one(sep[0]);
                assert(sep == seq![sep[0]]);
            }
        }
        lemma_item_short(sources, items.last());
        lemma_page_breaks_add(body_blocks(sources, StoryKind::ShortStory, items.drop_last()), sep);
        lemma_page_breaks_add(
            body_blocks(sources, StoryKind::ShortStory, items.drop_last()) + sep,
            item_blocks(sources, StoryKind::ShortStory, items.last()),
        );
    }
}

} // verus!
