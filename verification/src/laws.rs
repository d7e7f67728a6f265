//! Properties of the library as a whole, proved over the specifications
//! its functions meet.
use vstd::prelude::*;
use crate::args::{parse_args, ArgsErrorView, ArgsView};
use crate::chars::{is_ws, lines, trim, trim_end, trim_start, word_count, word_starts_at};
use crate::config::{source_text, Config, Source, StructureItem};
use crate::layout::{
    body_blocks, byline_para, chapter_blocks, contact_para, chapter_word_files, closing_blocks, content_word_files,
    entry_files, entry_text_blocks, file_blocks, file_words, item_word_files, manuscript_view,
    manuscript_words, part_chapters, scene_blocks, scene_break, story_kind_of, text_blocks,
    title_page, title_spacing, top_word_files, total_words, word_count_para, word_files,
    StoryKind,
};
use crate::markup::{
    formatted_run, is_heading, line_paragraph, smart_piece, line_runs, line_words, marker_len_at,
    paragraphs_of_lines, scan_markers, split_markers, strings_view, styled_runs, text_paragraphs,
    toggled,
};
use crate::model::{para_view, plain_format, text_run_view, BlockView, PieceView, RunView};
use crate::numbers::round_to_hundred;

verus! {

proof fn lemma_trim_start_first(s: Seq<char>)
    ensures
        trim_start(s).len() > 0 ==> !is_ws(trim_start(s)[0]),
        trim_start(s).len() <= s.len(),
    decreases s.len(),
{
    if s.len() > 0 && is_ws(s[0]) {
        lemma_trim_start_first(s.drop_first());
    }
}

proof fn lemma_trim_end_prefix(s: Seq<char>)
    ensures
        trim_end(s).len() <= s.len(),
        trim_end(s) == s.take(trim_end(s).len() as int),
    decreases s.len(),
{
    if s.len() > 0 && is_ws(s.last()) {
        lemma_trim_end_prefix(s.drop_last());
        assert(s.drop_last().take(trim_end(s).len() as int) == s.take(trim_end(s).len() as int));
    } else {
        assert(s.take(s.len() as int) == s);
    }
}

/// A trimmed line that is not empty starts with a non-whitespace character.
proof fn lemma_trim_first(s: Seq<char>)
    ensures
        trim(s).len() > 0 ==> !is_ws(trim(s)[0]),
{
    lemma_trim_start_first(s);
    lemma_trim_end_prefix(trim_start(s));
    if trim(s).len() > 0 {
        assert(trim(s)[0] == trim_start(s)[0]);
    }
}

proof fn lemma_word_count_positive(t: Seq<char>)
    requires
        t.len() > 0,
        !is_ws(t[0]),
    ensures
        word_count(t) >= 1,
{
    assert(word_starts_at(t, 0));
}

/// Whether a line is a paragraph line: a line that is neither blank nor a
/// heading.
pub open spec fn is_paragraph_line(line: Seq<char>) -> bool {
    trim(line).len() > 0 && !is_heading(trim(line))
}

/// The number of paragraph lines of `ls`.
pub open spec fn paragraph_line_count(ls: Seq<Seq<char>>) -> nat
    decreases ls.len(),
{
    if ls.len() == 0 {
        0
    } else {
        paragraph_line_count(ls.drop_last()) + if is_paragraph_line(ls.last()) {
            1nat
        } else {
            0nat
        }
    }
}

/// Law: a line becomes a paragraph exactly when it adds to the word count,
/// and so a file gives as many paragraphs as it has lines that count words.
pub proof fn law_paragraphs_are_counted_lines(content: Seq<char>)
    ensures
        forall|line: Seq<char>|
            (#[trigger] line_paragraph(line) is Some) == is_paragraph_line(line)
            && (line_words(line) > 0) == is_paragraph_line(line),
        text_paragraphs(content).len() == paragraph_line_count(lines(content)),
{
    assert forall|line: Seq<char>|
        (#[trigger] line_paragraph(line) is Some) == is_paragraph_line(line)
        && (line_words(line) > 0) == is_paragraph_line(line) by {
        lemma_trim_first(line);
        if trim(line).len() > 0 {
            lemma_word_count_positive(trim(line));
        }
    }
    lemma_paragraph_count(lines(content));
}

proof fn lemma_paragraph_count(ls: Seq<Seq<char>>)
    ensures
        paragraphs_of_lines(ls).len() == paragraph_line_count(ls),
    decreases ls.len(),
{
    if ls.len() > 0 {
        lemma_paragraph_count(ls.drop_last());
        lemma_trim_first(ls.last());
    }
}

/// Law: every paragraph made from a manuscript file is double spaced
/// (line spacing 480, twice the single 240).
pub proof fn law_text_is_double_spaced(content: Seq<char>)
    ensures
        forall|i: int|
            0 <= i < text_paragraphs(content).len() ==> (#[trigger] text_paragraphs(content)[i]
                matches BlockView::Para(p) && p.format.line_spacing == Some(480i32)),
{
    lemma_double_spaced(lines(content));
}

proof fn lemma_double_spaced(ls: Seq<Seq<char>>)
    ensures
        forall|i: int|
            0 <= i < paragraphs_of_lines(ls).len() ==> (#[trigger] paragraphs_of_lines(ls)[i]
                matches BlockView::Para(p) && p.format.line_spacing == Some(480i32)),
    decreases ls.len(),
{
    if ls.len() > 0 {
        lemma_double_spaced(ls.drop_last());
    }
}

/// The text the pieces `gaps` and `marks` alternate into: gap, mark, gap, …, gap.
pub open spec fn interleave(gaps: Seq<Seq<char>>, marks: Seq<Seq<char>>) -> Seq<char>
    decreases gaps.len(),
{
    if gaps.len() == 0 {
        seq![]
    } else if marks.len() == 0 {
        gaps[0] + interleave(gaps.drop_first(), marks)
    } else {
        gaps[0] + marks[0] + interleave(gaps.drop_first(), marks.drop_first())
    }
}

/// Whether `m` is one of the emphasis markers `*`, `**`, `***`, `_`.
pub open spec fn is_marker(m: Seq<char>) -> bool {
    m == seq!['*'] || m == seq!['*', '*'] || m == seq!['*', '*', '*'] || m == seq!['_']
}

proof fn lemma_scan(s: Seq<char>, start: int, i: int)
    requires
        0 <= start <= i <= s.len(),
        forall|j: int| start <= j < i ==> s[j] != '*' && s[j] != '_',
    ensures
        interleave(scan_markers(s, start, i).0, scan_markers(s, start, i).1) == s.subrange(
            start,
            s.len() as int,
        ),
        scan_markers(s, start, i).0.len() == scan_markers(s, start, i).1.len() + 1,
        forall|k: int|
            0 <= k < scan_markers(s, start, i).1.len() ==> is_marker(
                #[trigger] scan_markers(s, start, i).1[k],
            ),
        forall|k: int, j: int|
            0 <= k < scan_markers(s, start, i).0.len() && 0 <= j < scan_markers(
                s,
                start,
                i,
            ).0[k].len() ==> #[trigger] scan_markers(s, start, i).0[k][j] != '*'
                && scan_markers(s, start, i).0[k][j] != '_',
    decreases s.len() - i,
{
    let r = scan_markers(s, start, i);
    if i >= s.len() {
        let g = s.subrange(start, s.len() as int);
        assert(r.0 == seq![g]);
        assert(r.0.drop_first() == Seq::<Seq<char>>::empty());
        assert(interleave(r.0, r.1) == g + interleave(Seq::<Seq<char>>::empty(), r.1));
        assert(g + Seq::<char>::empty() == g);
    } else {
        let k = marker_len_at(s, i);
        if k <= 0 {
            lemma_scan(s, start, i + 1);
        } else {
            lemma_scan(s, i + k, i + k);
            let rest = scan_markers(s, i + k, i + k);
            let gap = s.subrange(start, i);
            let mark = s.subrange(i, i + k);
            assert(r.0 == seq![gap] + rest.0);
            assert(r.1 == seq![mark] + rest.1);
            assert(r.0.drop_first() == rest.0);
            assert(r.1.drop_first() == rest.1);
            assert(r.0[0] == gap);
            assert(r.1[0] == mark);
            assert(interleave(r.0, r.1) == gap + mark + interleave(rest.0, rest.1));
            assert(gap + mark + s.subrange(i + k, s.len() as int) == s.subrange(start, s.len() as int));
            if k == 3 {
                assert(mark == seq!['*', '*', '*']);
            } else if k == 2 {
                assert(mark == seq!['*', '*']);
            } else if s[i] == '*' {
                assert(mark == seq!['*']);
            } else {
                assert(mark == seq!['_']);
            }
            assert forall|q: int| 0 <= q < r.1.len() implies is_marker(#[trigger] r.1[q]) by {
                if q > 0 {
                    assert(r.1[q] == rest.1[q - 1]);
                }
            }
            assert forall|q: int, j: int|
                0 <= q < r.0.len() && 0 <= j < r.0[q].len() implies #[trigger] r.0[q][j] != '*'
                && r.0[q][j] != '_' by {
                if q > 0 {
                    assert(r.0[q] == rest.0[q - 1]);
                }
            }
        }
    }
}

/// Law: splitting a line at its emphasis markers loses nothing and finds
/// every marker: the texts and markers alternate back into the line, every
/// marker is `*`, `**`, `***` or `_`, and no text between them holds a `*`
/// or `_`.
pub proof fn law_markers_split_losslessly(s: Seq<char>)
    ensures
        interleave(split_markers(s).0, split_markers(s).1) == s,
        split_markers(s).0.len() == split_markers(s).1.len() + 1,
        forall|k: int| 0 <= k < split_markers(s).1.len() ==> is_marker(#[trigger] split_markers(s).1[k]),
        forall|k: int, j: int|
            0 <= k < split_markers(s).0.len() && 0 <= j < split_markers(s).0[k].len()
                ==> #[trigger] split_markers(s).0[k][j] != '*' && split_markers(s).0[k][j] != '_',
{
    lemma_scan(s, 0, 0);
    assert(s.subrange(0, s.len() as int) == s);
}

/// Law: blind mode leaves out the author and nothing else: the last name
/// from the header, the author's and agent's contact blocks from the title
/// page and the byline paragraph; everything else is the same.
pub proof fn law_blind_leaves_out_only_the_author(config: Config, sources: Seq<Source>)
    ensures
        ({
            let n = manuscript_view(config, sources, false);
            let b = manuscript_view(config, sources, true);
            let sp = title_spacing(story_kind_of(config.metadata.story_type)) as int;
            let words = round_to_hundred(manuscript_words(config, sources));
            &&& n.header.format == b.header.format
            &&& n.header.runs == seq![text_run_view(config.metadata.last_name@ + " | "@, false, false)]
                + b.header.runs
            &&& n.body.len() == b.body.len() + 1
            &&& n.body[0] == BlockView::ContactTable(
                contact_para(config.author, config.agent, false),
                word_count_para(words),
            )
            &&& b.body[0] == BlockView::ContactTable(para_view(plain_format(), seq![]), word_count_para(words))
            &&& n.body.subrange(1, sp + 2) == b.body.subrange(1, sp + 2)
            &&& n.body[sp + 2] == BlockView::Para(byline_para(config.metadata.byline@))
            &&& n.body.skip(sp + 3) == b.body.skip(sp + 2)
        }),
{
    let n = manuscript_view(config, sources, false);
    let b = manuscript_view(config, sources, true);
    let kind = story_kind_of(config.metadata.story_type);
    let sp = title_spacing(kind) as int;
    let words = round_to_hundred(manuscript_words(config, sources));
    let tn = title_page(config, kind, words, false);
    let tb = title_page(config, kind, words, true);
    let rest = body_blocks(sources, kind, config.structure@) + closing_blocks();
    assert(n.body == tn + rest);
    assert(b.body == tb + rest);
    assert(tn.len() == tb.len() + 1);
    assert(n.body[0] == tn[0]);
    assert(b.body[0] == tb[0]);
    assert(n.body.subrange(1, sp + 2) =~= b.body.subrange(1, sp + 2));
    assert(n.body[sp + 2] == tn[sp + 2]);
    assert(n.body.skip(sp + 3) =~= b.body.skip(sp + 2));
    assert(n.header.runs =~= seq![text_run_view(config.metadata.last_name@ + " | "@, false, false)]
        + b.header.runs);
}

/// The number of scene breaks among `bs`.
pub open spec fn scene_break_count(bs: Seq<BlockView>) -> nat
    decreases bs.len(),
{
    if bs.len() == 0 {
        0
    } else {
        scene_break_count(bs.drop_last()) + if bs.last() == scene_break() {
            1nat
        } else {
            0nat
        }
    }
}

proof fn lemma_scene_break_count_add(a: Seq<BlockView>, b: Seq<BlockView>)
    ensures
        scene_break_count(a + b) == scene_break_count(a) + scene_break_count(b),
    decreases b.len(),
{
    if b.len() == 0 {
        assert(a + b == a);
    } else {
        lemma_scene_break_count_add(a, b.drop_last());
        assert((a + b).drop_last() == a + b.drop_last());
    }
}

proof fn lemma_text_has_no_scene_break(ls: Seq<Seq<char>>)
    ensures
        scene_break_count(paragraphs_of_lines(ls)) == 0,
    decreases ls.len(),
{
    if ls.len() > 0 {
        lemma_text_has_no_scene_break(ls.drop_last());
        let before = paragraphs_of_lines(ls.drop_last());
        match line_paragraph(ls.last()) {
            Some(p) => {
                assert(paragraphs_of_lines(ls) == before.push(BlockView::Para(p)));
                assert(paragraphs_of_lines(ls).drop_last() == before);
                assert(p.format.indent is Some);
            },
            None => {},
        }
    }
}

/// Law: a chapter made of several scene files has exactly one scene break
/// between each two files, and none elsewhere: the text of a file never
/// holds one.
pub proof fn law_scene_breaks_between_files(sources: Seq<Source>, fs: Seq<String>)
    ensures
        scene_break_count(scene_blocks(sources, fs)) == if fs.len() == 0 {
            0
        } else {
            (fs.len() - 1) as nat
        },
    decreases fs.len(),
{
    if fs.len() > 0 {
        law_scene_breaks_between_files(sources, fs.drop_last());
        let f = file_blocks(sources, fs.last()@);
        assert(scene_break_count(f) == 0) by {
            match crate::config::source_text(sources, fs.last()@) {
                Some(t) => lemma_text_has_no_scene_break(lines(t)),
                None => {},
            }
        }
        let mid: Seq<BlockView> = if fs.len() > 1 {
            seq![scene_break()]
        } else {
            seq![]
        };
        lemma_scene_break_count_add(scene_blocks(sources, fs.drop_last()), mid);
        lemma_scene_break_count_add(scene_blocks(sources, fs.drop_last()) + mid, f);
        if fs.len() > 1 {
            assert(mid.drop_last() == Seq::<BlockView>::empty());
            assert(mid.last() == scene_break());
            assert(scene_break_count(Seq::<BlockView>::empty()) == 0);
            assert(scene_break_count(mid) == 1);
        } else {
            assert(scene_break_count(mid) == 0);
        }
        assert(scene_blocks(sources, fs) == scene_blocks(sources, fs.drop_last()) + mid + f);
    }
}

/// `--blind`, as an argument.
pub open spec fn blind_flag() -> Seq<char> {
    seq!['-', '-', 'b', 'l', 'i', 'n', 'd']
}

/// Whether an argument is read as a positional one.
pub open spec fn plain_argument(a: Seq<char>) -> bool {
    !(a.len() >= 2 && a[0] == '-')
}

/// Law: a command line of two plain arguments gives the configuration file
/// and the output directory, `--blind` before, between or after them turns
/// on blind mode, and one argument alone is refused.
pub proof fn law_command_line(p: Seq<char>, a: Seq<char>, b: Seq<char>)
    requires
        plain_argument(a),
        plain_argument(b),
    ensures
        parse_args(seq![p, a, b]) == Ok::<ArgsView, ArgsErrorView>(ArgsView { config_file: a, output_dir: b, blind: false }),
        parse_args(seq![p, blind_flag(), a, b]) == Ok::<ArgsView, ArgsErrorView>(ArgsView { config_file: a, output_dir: b, blind: true }),
        parse_args(seq![p, a, blind_flag(), b]) == Ok::<ArgsView, ArgsErrorView>(ArgsView { config_file: a, output_dir: b, blind: true }),
        parse_args(seq![p, a, b, blind_flag()]) == Ok::<ArgsView, ArgsErrorView>(ArgsView { config_file: a, output_dir: b, blind: true }),
        parse_args(seq![p, a]) == Err::<ArgsView, ArgsErrorView>(ArgsErrorView::MissingArguments),
{
    reveal_strlit("help");
    reveal_strlit("version");
    reveal_strlit("blind");
    let body = blind_flag().skip(2);
    assert(body == seq!['b', 'l', 'i', 'n', 'd']);
    assert(crate::args::eq_index(body, 5) == 5);
    assert(crate::args::eq_index(body, 4) == 5);
    assert(crate::args::eq_index(body, 3) == 5);
    assert(crate::args::eq_index(body, 2) == 5);
    assert(crate::args::eq_index(body, 1) == 5);
    assert(crate::args::eq_index(body, 0) == 5);
    assert(body.take(5) == body);
    assert("blind"@ =~= body);
    assert("help"@ != body) by {
        assert("help"@.len() == 4);
    }
    assert("version"@ != body) by {
        assert("version"@.len() == 7);
    }
    assert(blind_flag() != seq!['-', '-']) by {
        assert(blind_flag().len() == 7);
    }
    assert(a != seq!['-', '-']);
    assert(b != seq!['-', '-']);
    reveal_with_fuel(crate::args::parse_from, 5);
}

/// Whether `x` holds no `*` and no `_`.
pub open spec fn marker_free(x: Seq<char>) -> bool {
    forall|j: int| 0 <= j < x.len() ==> x[j] != '*' && x[j] != '_'
}

proof fn lemma_scan_skips_plain_text(s: Seq<char>, start: int, i: int, j: int)
    requires
        0 <= start <= i <= j <= s.len(),
        forall|k: int| i <= k < j ==> s[k] != '*' && s[k] != '_',
    ensures
        scan_markers(s, start, i) == scan_markers(s, start, j),
    decreases j - i,
{
    if i < j {
        assert(marker_len_at(s, i) == 0);
        lemma_scan_skips_plain_text(s, start, i + 1, j);
    }
}

/// Law: a piece of plain text between a pair of emphasis markers becomes
/// one run in that emphasis: `*x*` and `_x_` italic, `**x**` bold,
/// `***x***` bold italic.
pub proof fn law_emphasis_pair(x: Seq<char>, m: Seq<char>)
    requires
        x.len() > 0,
        marker_free(x),
        is_marker(m),
    ensures
        line_runs(m + x + m) == seq![
            formatted_run(x, toggled(m, false, false).0, toggled(m, false, false).1),
        ],
{
    let s = m + x + m;
    let k = m.len() as int;
    let e = k + x.len();
    assert(s.len() == e + k);
    assert(forall|j: int| 0 <= j < k ==> s[j] == m[j]);
    assert(forall|j: int| 0 <= j < x.len() ==> s[k + j] == x[j]);
    assert(forall|j: int| 0 <= j < k ==> s[e + j] == m[j]);
    assert(marker_len_at(s, 0) == k);
    assert(marker_len_at(s, e) == k);
    lemma_scan_skips_plain_text(s, k, k, e);
    let tail = scan_markers(s, e + k, e + k);
    assert(tail == (seq![s.subrange(e + k, s.len() as int)], Seq::<Seq<char>>::empty()));
    assert(s.subrange(e + k, s.len() as int) == Seq::<char>::empty());
    let mid = scan_markers(s, k, e);
    assert(mid == (seq![s.subrange(k, e)] + tail.0, seq![s.subrange(e, e + k)] + tail.1));
    assert(s.subrange(k, e) == x);
    assert(s.subrange(e, e + k) == m);
    assert(s.subrange(0, 0) == Seq::<char>::empty());
    assert(s.subrange(0, k) == m);
    let sp = split_markers(s);
    assert(sp.0 == seq![Seq::<char>::empty(), x, Seq::<char>::empty()]);
    assert(sp.1 == seq![m, m]);
    let t1 = toggled(m, false, false);
    let t2 = toggled(m, t1.0, t1.1);
    assert(styled_runs(sp.0, sp.1, 3, t2.0, t2.1) == Seq::<crate::model::RunView>::empty());
    assert(styled_runs(sp.0, sp.1, 2, t2.0, t2.1) == Seq::<crate::model::RunView>::empty());
    assert(styled_runs(sp.0, sp.1, 1, t1.0, t1.1) == seq![formatted_run(x, t1.0, t1.1)]);
    assert(styled_runs(sp.0, sp.1, 0, false, false) == seq![formatted_run(x, t1.0, t1.1)]);
}

/// Whether two sets of sources give the same text for each of `paths`.
pub open spec fn agree_on(s1: Seq<Source>, s2: Seq<Source>, paths: Seq<Seq<char>>) -> bool {
    forall|i: int| 0 <= i < paths.len() ==> source_text(s1, #[trigger] paths[i]) == source_text(s2, paths[i])
}

proof fn lemma_agree_split(s1: Seq<Source>, s2: Seq<Source>, a: Seq<Seq<char>>, b: Seq<Seq<char>>)
    requires
        agree_on(s1, s2, a + b),
    ensures
        agree_on(s1, s2, a),
        agree_on(s1, s2, b),
{
    assert forall|i: int| 0 <= i < a.len() implies source_text(s1, #[trigger] a[i]) == source_text(s2, a[i]) by {
        assert((a + b)[i] == a[i]);
    }
    assert forall|i: int| 0 <= i < b.len() implies source_text(s1, #[trigger] b[i]) == source_text(s2, b[i]) by {
        assert((a + b)[a.len() + i] == b[i]);
    }
}

proof fn lemma_scenes_agree(s1: Seq<Source>, s2: Seq<Source>, fs: Seq<String>)
    requires
        agree_on(s1, s2, strings_view(fs)),
    ensures
        scene_blocks(s1, fs) == scene_blocks(s2, fs),
    decreases fs.len(),
{
    if fs.len() > 0 {
        assert(strings_view(fs) == strings_view(fs.drop_last()) + seq![fs.last()@]);
        lemma_agree_split(s1, s2, strings_view(fs.drop_last()), seq![fs.last()@]);
        lemma_scenes_agree(s1, s2, fs.drop_last());
        assert(source_text(s1, fs.last()@) == source_text(s2, fs.last()@)) by {
            assert(seq![fs.last()@][0] == fs.last()@);
        }
    }
}

proof fn lemma_entry_agree(
    s1: Seq<Source>,
    s2: Seq<Source>,
    file: Option<String>,
    files: Option<Vec<String>>,
)
    requires
        agree_on(s1, s2, entry_files(file, files)),
    ensures
        entry_text_blocks(s1, file, files) == entry_text_blocks(s2, file, files),
{
    match file {
        Some(f) => {
            assert(entry_files(file, files)[0] == f@);
        },
        None => match files {
            Some(fs) => lemma_scenes_agree(s1, s2, fs@),
            None => {},
        },
    }
}

proof fn lemma_item_agree(s1: Seq<Source>, s2: Seq<Source>, item: StructureItem)
    requires
        agree_on(s1, s2, item_word_files(item)),
    ensures
        chapter_blocks(s1, item) == chapter_blocks(s2, item),
        text_blocks(s1, item) == text_blocks(s2, item),
{
    match item {
        StructureItem::Chapter { file, files, .. } => lemma_entry_agree(s1, s2, file, files),
        StructureItem::Text { file, files } => lemma_entry_agree(s1, s2, file, files),
        StructureItem::Part { .. } => {},
    }
}

proof fn lemma_part_agree(s1: Seq<Source>, s2: Seq<Source>, kind: StoryKind, content: Seq<StructureItem>)
    requires
        agree_on(s1, s2, content_word_files(content)),
    ensures
        part_chapters(s1, kind, content) == part_chapters(s2, kind, content),
    decreases content.len(),
{
    if content.len() > 0 {
        lemma_agree_split(s1, s2, content_word_files(content.drop_last()), chapter_word_files(content.last()));
        lemma_part_agree(s1, s2, kind, content.drop_last());
        match content.last() {
            StructureItem::Chapter { file, files, .. } => lemma_entry_agree(s1, s2, file, files),
            _ => {},
        }
    }
}

proof fn lemma_body_agree(s1: Seq<Source>, s2: Seq<Source>, kind: StoryKind, items: Seq<StructureItem>)
    requires
        agree_on(s1, s2, word_files(items)),
    ensures
        body_blocks(s1, kind, items) == body_blocks(s2, kind, items),
    decreases items.len(),
{
    if items.len() > 0 {
        lemma_agree_split(s1, s2, word_files(items.drop_last()), top_word_files(items.last()));
        lemma_body_agree(s1, s2, kind, items.drop_last());
        match items.last() {
            StructureItem::Part { content, .. } => lemma_part_agree(s1, s2, kind, content@),
            _ => lemma_item_agree(s1, s2, items.last()),
        }
    }
}

proof fn lemma_words_agree(s1: Seq<Source>, s2: Seq<Source>, paths: Seq<Seq<char>>)
    requires
        agree_on(s1, s2, paths),
    ensures
        total_words(s1, paths) == total_words(s2, paths),
    decreases paths.len(),
{
    if paths.len() > 0 {
        lemma_agree_split(s1, s2, paths.drop_last(), seq![paths.last()]);
        lemma_words_agree(s1, s2, paths.drop_last());
        assert(seq![paths.last()][0] == paths.last());
        assert(paths.drop_last() + seq![paths.last()] == paths);
    }
}

/// Law: the manuscript depends on the files only through those the
/// configuration names: two sets of sources that give the same text for
/// each file of `word_files` (the list `referenced_files` returns) give the
/// same manuscript, so reading exactly those files is enough.
pub proof fn law_only_referenced_files_matter(config: Config, s1: Seq<Source>, s2: Seq<Source>, blind: bool)
    requires
        agree_on(s1, s2, word_files(config.structure@)),
    ensures
        manuscript_words(config, s1) == manuscript_words(config, s2),
        manuscript_view(config, s1, blind) == manuscript_view(config, s2, blind),
{
    lemma_words_agree(s1, s2, word_files(config.structure@));
    lemma_body_agree(s1, s2, story_kind_of(config.metadata.story_type), config.structure@);
}

/// Law: in blind mode the manuscript does not depend on who wrote it: two
/// configurations that differ only in the author, the agent, the last name
/// and the byline give the same manuscript (and so `render_docx` gives the
/// same document for both).
pub proof fn law_blind_ignores_the_author(c1: Config, c2: Config, sources: Seq<Source>)
    requires
        c1.metadata.title@ == c2.metadata.title@,
        c1.metadata.short_title@ == c2.metadata.short_title@,
        c1.metadata.story_type == c2.metadata.story_type,
        c1.structure@ == c2.structure@,
    ensures
        manuscript_view(c1, sources, true) == manuscript_view(c2, sources, true),
{
    let kind = story_kind_of(c1.metadata.story_type);
    let words = round_to_hundred(manuscript_words(c1, sources));
    assert(title_page(c1, kind, words, true) =~= title_page(c2, kind, words, true));
    assert(manuscript_view(c1, sources, true).header.runs =~= manuscript_view(c2, sources, true).header.runs);
}

proof fn lemma_total_words_concat(sources: Seq<Source>, a: Seq<Seq<char>>, b: Seq<Seq<char>>)
    ensures
        total_words(sources, a + b) == total_words(sources, a) + total_words(sources, b),
    decreases b.len(),
{
    if b.len() == 0 {
        assert(a + b == a);
    } else {
        lemma_total_words_concat(sources, a, b.drop_last());
        assert((a + b).drop_last() == a + b.drop_last());
        assert((a + b).last() == b.last());
    }
}

proof fn lemma_total_words_insert(sources: Seq<Source>, paths: Seq<Seq<char>>, i: int, p: Seq<char>)
    requires
        0 <= i <= paths.len(),
    ensures
        total_words(sources, paths.insert(i, p)) == total_words(sources, paths) + file_words(sources, p),
{
    let a = paths.take(i);
    let b = paths.skip(i);
    assert(paths == a + b);
    assert(paths.insert(i, p) == a + seq![p] + b);
    lemma_total_words_concat(sources, a, b);
    lemma_total_words_concat(sources, a + seq![p], b);
    lemma_total_words_concat(sources, a, seq![p]);
    assert(seq![p].drop_last() == Seq::<Seq<char>>::empty());
    assert(seq![p].last() == p);
    assert(total_words(sources, Seq::<Seq<char>>::empty()) == 0);
    assert(total_words(sources, seq![p]) == total_words(sources, seq![p].drop_last()) + file_words(sources, seq![p].last()));
}

/// Law: a file that could not be read, or that is empty, counts no words:
/// naming it anywhere among the counted files leaves the total as it was.
pub proof fn law_unread_or_empty_file_counts_nothing(
    sources: Seq<Source>,
    paths: Seq<Seq<char>>,
    i: int,
    p: Seq<char>,
)
    requires
        0 <= i <= paths.len(),
        source_text(sources, p) is None || source_text(sources, p) == Some(Seq::<char>::empty()),
    ensures
        file_words(sources, p) == 0,
        total_words(sources, paths.insert(i, p)) == total_words(sources, paths),
{
    assert(lines(Seq::<char>::empty()) == Seq::<Seq<char>>::empty());
    lemma_total_words_insert(sources, paths, i, p);
}

/// Law: naming one more file never lowers the word count: where the files
/// a configuration lays out are those of another with one name added, its
/// total is the other's plus the words of that file.
pub proof fn law_more_files_never_fewer_words(
    c1: Config,
    c2: Config,
    sources: Seq<Source>,
    i: int,
    p: Seq<char>,
)
    requires
        0 <= i <= word_files(c1.structure@).len(),
        word_files(c2.structure@) == word_files(c1.structure@).insert(i, p),
    ensures
        manuscript_words(c2, sources) == manuscript_words(c1, sources) + file_words(sources, p),
        manuscript_words(c1, sources) <= manuscript_words(c2, sources),
{
    lemma_total_words_insert(sources, word_files(c1.structure@), i, p);
}

proof fn lemma_total_words_pointwise(s1: Seq<Source>, s2: Seq<Source>, paths: Seq<Seq<char>>)
    requires
        forall|k: int| 0 <= k < paths.len() ==> file_words(s1, #[trigger] paths[k]) <= file_words(s2, paths[k]),
    ensures
        total_words(s1, paths) <= total_words(s2, paths),
    decreases paths.len(),
{
    if paths.len() > 0 {
        assert forall|k: int| 0 <= k < paths.drop_last().len() implies file_words(s1, #[trigger] paths.drop_last()[k])
            <= file_words(s2, paths.drop_last()[k]) by {
            assert(paths.drop_last()[k] == paths[k]);
        }
        lemma_total_words_pointwise(s1, s2, paths.drop_last());
        assert(paths.last() == paths[paths.len() - 1]);
    }
}

/// Law: more words in the files never lower the word count: where every
/// file the configuration lays out has at least as many words under `s2`
/// as under `s1`, the total under `s2` is at least that under `s1`.
pub proof fn law_more_words_never_fewer(config: Config, s1: Seq<Source>, s2: Seq<Source>)
    requires
        forall|k: int|
            0 <= k < word_files(config.structure@).len() ==> file_words(s1, #[trigger] word_files(config.structure@)[k])
                <= file_words(s2, word_files(config.structure@)[k]),
    ensures
        manuscript_words(config, s1) <= manuscript_words(config, s2),
        round_to_hundred(manuscript_words(config, s1)) <= round_to_hundred(manuscript_words(config, s2)),
{
    lemma_total_words_pointwise(s1, s2, word_files(config.structure@));
    crate::numbers::lemma_rounding_monotone(manuscript_words(config, s1), manuscript_words(config, s2));
}

/// The text of a run: its text pieces, joined.
pub open spec fn pieces_text(ps: Seq<PieceView>) -> Seq<char>
    decreases ps.len(),
{
    if ps.len() == 0 {
        seq![]
    } else {
        (match ps[0] {
            PieceView::Text(t) => t,
            _ => seq![],
        }) + pieces_text(ps.drop_first())
    }
}

/// The text of a sequence of runs, joined.
pub open spec fn runs_text(rs: Seq<RunView>) -> Seq<char>
    decreases rs.len(),
{
    if rs.len() == 0 {
        seq![]
    } else {
        pieces_text(rs[0].pieces) + runs_text(rs.drop_first())
    }
}

/// The pieces `gaps[i..]` with smart punctuation, joined.
pub open spec fn smart_pieces(gaps: Seq<Seq<char>>, i: int) -> Seq<char>
    decreases gaps.len() - i,
{
    if i < 0 || i >= gaps.len() {
        seq![]
    } else {
        smart_piece(gaps[i]) + smart_pieces(gaps, i + 1)
    }
}

/// The pieces `gaps[i..]`, joined.
pub open spec fn joined_pieces(gaps: Seq<Seq<char>>, i: int) -> Seq<char>
    decreases gaps.len() - i,
{
    if i < 0 || i >= gaps.len() {
        seq![]
    } else {
        gaps[i] + joined_pieces(gaps, i + 1)
    }
}

proof fn lemma_styled_text(gaps: Seq<Seq<char>>, marks: Seq<Seq<char>>, i: int, bold: bool, italic: bool)
    requires
        0 <= i,
    ensures
        runs_text(styled_runs(gaps, marks, i, bold, italic)) == smart_pieces(gaps, i),
    decreases gaps.len() - i,
{
    if i < gaps.len() {
        let next = if i < marks.len() {
            toggled(marks[i], bold, italic)
        } else {
            (bold, italic)
        };
        lemma_styled_text(gaps, marks, i + 1, next.0, next.1);
        let rest = styled_runs(gaps, marks, i + 1, next.0, next.1);
        if gaps[i].len() > 0 {
            let r = formatted_run(gaps[i], bold, italic);
            assert((seq![r] + rest).drop_first() == rest);
            assert(r.pieces.drop_first() == Seq::<PieceView>::empty());
            assert(pieces_text(r.pieces.drop_first()) == Seq::<char>::empty());
            assert(pieces_text(r.pieces) == smart_piece(gaps[i]) + Seq::<char>::empty());
        } else {
            assert(seq![] + rest == rest);
            assert(trim_start(gaps[i]) == gaps[i]);
            assert(smart_piece(gaps[i]) == gaps[i]);
            assert(gaps[i] + smart_pieces(gaps, i + 1) == smart_pieces(gaps, i + 1));
        }
    }
}

proof fn lemma_smart_pieces_kept(gaps: Seq<Seq<char>>, i: int)
    requires
        0 <= i,
        forall|k: int| 0 <= k < gaps.len() ==> smart_piece(#[trigger] gaps[k]) == gaps[k],
    ensures
        smart_pieces(gaps, i) == joined_pieces(gaps, i),
    decreases gaps.len() - i,
{
    if i < gaps.len() {
        lemma_smart_pieces_kept(gaps, i + 1);
        assert(smart_piece(gaps[i]) == gaps[i]);
    }
}

/// Law: the runs of a line, joined, are the line with its emphasis markers
/// taken out and each piece between them given smart punctuation, the
/// whitespace beside a marker kept; where smart punctuation changes no
/// piece, they are exactly the line without its markers.
pub proof fn law_runs_keep_the_text(s: Seq<char>)
    ensures
        runs_text(line_runs(s)) == smart_pieces(split_markers(s).0, 0),
        (forall|k: int|
            0 <= k < split_markers(s).0.len() ==> smart_piece(#[trigger] split_markers(s).0[k])
                == split_markers(s).0[k]) ==> runs_text(line_runs(s)) == joined_pieces(
            split_markers(s).0,
            0,
        ),
{
    lemma_styled_text(split_markers(s).0, split_markers(s).1, 0, false, false);
    if forall|k: int|
        0 <= k < split_markers(s).0.len() ==> smart_piece(#[trigger] split_markers(s).0[k])
            == split_markers(s).0[k] {
        lemma_smart_pieces_kept(split_markers(s).0, 0);
    }
}

} // verus!
