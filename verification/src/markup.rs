//! The text of a manuscript file: which lines become paragraphs, the inline
//! `*italic*`, `_italic_`, `**bold**` and `***bold-italic***` markers, and
//! smart punctuation.
use vstd::prelude::*;
use crate::chars::{
    chars_of, count_words, is_ws, line_bounds, lemma_words_from_bound, lines, push_str,
    skip_ws_backward, skip_ws_forward, string_of, trim, trim_bounds, trim_start, word_count,
};
use crate::model::{
    blocks_view, para, para_view, push_block, push_run, runs_view, text_run, text_run_view, Block,
    BlockView, Indent, ParaFormat, ParaView, RunView, TextRun,
};

verus! {

#[verifier::external_type_specification]
#[verifier::external_body]
pub struct ExRegexError(regex::Error);

/// A Markdown heading line: one to six `#` and a whitespace character.
pub const HEADING_PATTERN: &'static str = r"^#{1,6}\s";

/// The inline emphasis markers: a run of one to three `*`, or one `_`.
pub const TOKEN_PATTERN: &'static str = r"(\*{1,3}|_{1})";

/// Whether `regex::Regex::new` accepts `pattern`.
pub uninterp spec fn regex_compiles(pattern: Seq<char>) -> bool;

/// What `Regex::is_match` answers for the regex compiled from `pattern`.
pub uninterp spec fn regex_is_match(pattern: Seq<char>, haystack: Seq<char>) -> bool;

/// The pieces `Regex::split` yields: the text between successive matches.
pub uninterp spec fn regex_split(pattern: Seq<char>, haystack: Seq<char>) -> Seq<Seq<char>>;

/// The texts of the matches `Regex::find_iter` yields, in order.
pub uninterp spec fn regex_find_iter(pattern: Seq<char>, haystack: Seq<char>) -> Seq<Seq<char>>;

/// The events `pulldown_cmark::Parser::new_ext` yields for `text` (with
/// smart punctuation on or off): `Some(t)` for a `Text(t)` event, `None` for
/// any other event.
pub uninterp spec fn markdown_events(text: Seq<char>, smart_punctuation: bool) -> Seq<
    Option<Seq<char>>,
>;

pub open spec fn strings_view(v: Seq<String>) -> Seq<Seq<char>> {
    v.map_values(|s: String| s@)
}

/// Whether `s` starts with one to six `#` followed by a whitespace character.
pub open spec fn is_heading(s: Seq<char>) -> bool {
    exists|k: int|
        1 <= k <= 6 && k < s.len() && (forall|j: int| 0 <= j < k ==> s[j] == '#') && is_ws(
            #[trigger] s[k],
        )
}

/// The length of the emphasis marker that starts at `s[i]`: up to three `*`,
/// or one `_`; zero where none starts.
pub open spec fn marker_len_at(s: Seq<char>, i: int) -> int {
    if s[i] == '*' {
        if i + 1 < s.len() && s[i + 1] == '*' {
            if i + 2 < s.len() && s[i + 2] == '*' {
                3
            } else {
                2
            }
        } else {
            1
        }
    } else if s[i] == '_' {
        1
    } else {
        0
    }
}

/// The leftmost-first, non-overlapping matches of the emphasis markers in
/// `s`, scanning from `i` with the current gap starting at `start`: the texts
/// between the markers (one more than the markers) and the markers.
pub open spec fn scan_markers(s: Seq<char>, start: int, i: int) -> (Seq<Seq<char>>, Seq<Seq<char>>)
    decreases s.len() - i,
{
    if i < 0 || i >= s.len() {
        (seq![s.subrange(start, s.len() as int)], seq![])
    } else {
        let k = marker_len_at(s, i);
        if k <= 0 {
            scan_markers(s, start, i + 1)
        } else {
            let rest = scan_markers(s, i + k, i + k);
            (seq![s.subrange(start, i)] + rest.0, seq![s.subrange(i, i + k)] + rest.1)
        }
    }
}

/// `s` split at its emphasis markers: the texts between them, and the markers.
pub open spec fn split_markers(s: Seq<char>) -> (Seq<Seq<char>>, Seq<Seq<char>>) {
    scan_markers(s, 0, 0)
}

/// `regex::Regex::new(pattern)` and `Regex::is_match(haystack)`.
/// Claims: the result is `Ok` exactly when the pattern compiles and then it
/// is whether the regex matches; for the heading pattern (whose `\s` is the
/// Unicode `White_Space` class) it is `Ok` and says whether the haystack
/// starts with one to six `#` and a whitespace character.
#[verifier::external_body]
fn regex_matches(pattern: &str, haystack: &str) -> (r: Result<bool, regex::Error>)
    ensures
        r is Ok <==> regex_compiles(pattern@),
        r matches Ok(b) ==> b == regex_is_match(pattern@, haystack@),
        pattern@ == HEADING_PATTERN@ ==> r is Ok && r->Ok_0 == is_heading(haystack@),
{
    Ok(regex::Regex::new(pattern)?.is_match(haystack))
}

/// `regex::Regex::new(pattern)`, then `Regex::split(haystack)` and
/// `Regex::find_iter(haystack)`, collected as strings.
/// Claims: `Ok` exactly when the pattern compiles; the two lists are what
/// `split` and `find_iter` yield; for the emphasis-marker pattern they are the
/// leftmost-first, greedy, non-overlapping matches of `split_markers`.
#[verifier::external_body]
fn regex_split_matches(pattern: &str, haystack: &str) -> (r: Result<
    (Vec<String>, Vec<String>),
    regex::Error,
>)
    ensures
        r is Ok <==> regex_compiles(pattern@),
        r matches Ok(p) ==> strings_view(p.0@) == regex_split(pattern@, haystack@)
            && strings_view(p.1@) == regex_find_iter(pattern@, haystack@),
        pattern@ == TOKEN_PATTERN@ ==> r is Ok && strings_view(r->Ok_0.0@) == split_markers(
            haystack@,
        ).0 && strings_view(r->Ok_0.1@) == split_markers(haystack@).1,
{
    let re = regex::Regex::new(pattern)?;
    let gaps: Vec<String> = re.split(haystack).map(|s| s.to_string()).collect();
    let marks: Vec<String> = re.find_iter(haystack).map(|m| m.as_str().to_string()).collect();
    Ok((gaps, marks))
}

pub open spec fn options_view(v: Seq<Option<String>>) -> Seq<Option<Seq<char>>> {
    v.map_values(|o: Option<String>| match o { Some(s) => Some(s@), None => None })
}

/// `pulldown_cmark::Parser::new_ext(text, options)` with
/// `ENABLE_SMART_PUNCTUATION` set as given, each event turned into the text of
/// a `Text` event or `None`. Claims: the result is `markdown_events` of the
/// arguments.
#[verifier::external_body]
fn markdown_text_events(text: &str, smart_punctuation: bool) -> (r: Vec<Option<String>>)
    ensures
        options_view(r@) == markdown_events(text@, smart_punctuation),
{
    let mut options = pulldown_cmark::Options::empty();
    options.set(pulldown_cmark::Options::ENABLE_SMART_PUNCTUATION, smart_punctuation);
    pulldown_cmark::Parser::new_ext(text, options).map(|event| match event {
        pulldown_cmark::Event::Text(t) => Some(t.into_string()),
        _ => None,
    }).collect()
}

/// The texts of the `Some` entries, joined.
pub open spec fn joined_texts(ev: Seq<Option<Seq<char>>>) -> Seq<char>
    decreases ev.len(),
{
    if ev.len() == 0 {
        seq![]
    } else {
        joined_texts(ev.drop_last()) + match ev.last() {
            Some(t) => t,
            None => seq![],
        }
    }
}

/// `text` with smart punctuation: the text events Markdown gives for it, joined.
pub open spec fn smart_text(text: Seq<char>) -> Seq<char> {
    joined_texts(markdown_events(text, true))
}

/// The texts of the `Text` events among `events`, joined in order.
pub fn join_text_events(events: &Vec<Option<String>>) -> (r: String)
    ensures
        r@ == joined_texts(options_view(events@)),
{
    let ghost ev = options_view(events@);
    let mut out = String::new();
    let mut i: usize = 0;
    while i < events.len()
        invariant
            i <= events@.len(),
            ev == options_view(events@),
            ev.len() == events@.len(),
            out@ == joined_texts(ev.take(i as int)),
        decreases events@.len() - i,
    {
        assert(ev.take(i + 1).drop_last() == ev.take(i as int));
        match &events[i] {
            Some(t) => push_str(&mut out, t.as_str()),
            None => {},
        }
        i = i + 1;
    }
    assert(ev.take(i as int) == ev);
    out
}

/// Smart punctuation for `text`: straight quotes become curly, `--` and
/// `---` become dashes, as Markdown with smart punctuation renders them.
pub fn smart_punctuation(text: &str) -> (r: String)
    ensures
        r@ == smart_text(text@),
{
    join_text_events(&markdown_text_events(text, true))
}

/// The whitespace `t` starts with.
pub open spec fn ws_prefix(t: Seq<char>) -> Seq<char> {
    t.take(t.len() - trim_start(t).len())
}

/// The whitespace `t` ends with (all of it belongs to the prefix where `t`
/// is only whitespace).
pub open spec fn ws_suffix(t: Seq<char>) -> Seq<char> {
    trim_start(t).skip(trim(t).len() as int)
}

/// A piece of text between emphasis markers with smart punctuation: the
/// text inside its edge whitespace as Markdown with smart punctuation
/// renders it, the edge whitespace kept as it is, so that the words beside
/// a marker stay apart; a piece of whitespace alone is kept as it is.
pub open spec fn smart_piece(t: Seq<char>) -> Seq<char> {
    if trim(t).len() == 0 {
        t
    } else {
        ws_prefix(t) + smart_text(trim(t)) + ws_suffix(t)
    }
}

/// The run `apply_formatting` makes of a piece of text: smart punctuation,
/// in the current bold and italic state.
pub open spec fn formatted_run(text: Seq<char>, bold: bool, italic: bool) -> RunView {
    text_run_view(smart_piece(text), bold, italic)
}

/// `text` with smart punctuation and its edge whitespace kept.
fn smart_piece_of(text: &str) -> (r: String)
    ensures
        r@ == smart_piece(text@),
{
    let c = chars_of(text);
    let n = c.len();
    let a = skip_ws_forward(&c, 0, n);
    let b = skip_ws_backward(&c, a, n);
    proof {
        assert(c@.subrange(0, n as int) == text@);
        assert(trim_start(text@) == c@.subrange(a as int, n as int));
        assert(trim(text@) == c@.subrange(a as int, b as int));
        assert(ws_prefix(text@) == c@.subrange(0, a as int));
        assert(ws_suffix(text@) == c@.subrange(b as int, n as int));
    }
    if a == b {
        return string_of(&c, 0, n);
    }
    let mut r = string_of(&c, 0, a);
    let core = string_of(&c, a, b);
    let smart = smart_punctuation(core.as_str());
    push_str(&mut r, smart.as_str());
    let tail = string_of(&c, b, n);
    push_str(&mut r, tail.as_str());
    r
}

/// A run of `text` with smart punctuation, bold and italic as given; the
/// whitespace at its edges is kept.
pub fn apply_formatting(text: &str, bold: bool, italic: bool) -> (r: TextRun)
    ensures
        r@ == formatted_run(text@, bold, italic),
{
    text_run(smart_piece_of(text), bold, italic)
}

/// How a marker changes the (bold, italic) state: `***` both, `**` bold,
/// `*` and `_` italic.
pub open spec fn toggled(marker: Seq<char>, bold: bool, italic: bool) -> (bool, bool) {
    if marker == seq!['*', '*', '*'] {
        (!bold, !italic)
    } else if marker == seq!['*', '*'] {
        (!bold, italic)
    } else if marker == seq!['*'] || marker == seq!['_'] {
        (bold, !italic)
    } else {
        (bold, italic)
    }
}

/// The runs for the texts `gaps[i..]` between the markers `marks`, starting
/// in the given state: each non-empty text becomes a formatted run, each
/// marker toggles the state.
pub open spec fn styled_runs(
    gaps: Seq<Seq<char>>,
    marks: Seq<Seq<char>>,
    i: int,
    bold: bool,
    italic: bool,
) -> Seq<RunView>
    decreases gaps.len() - i,
{
    if i < 0 || i >= gaps.len() {
        seq![]
    } else {
        let here = if gaps[i].len() > 0 {
            seq![formatted_run(gaps[i], bold, italic)]
        } else {
            seq![]
        };
        let next = if i < marks.len() {
            toggled(marks[i], bold, italic)
        } else {
            (bold, italic)
        };
        here + styled_runs(gaps, marks, i + 1, next.0, next.1)
    }
}

/// The runs of the text of one paragraph.
pub open spec fn line_runs(text: Seq<char>) -> Seq<RunView> {
    styled_runs(split_markers(text).0, split_markers(text).1, 0, false, false)
}

/// Whether `t` is exactly `n` copies of `c`.
fn is_repeat(t: &str, c: char, n: usize) -> (r: bool)
    ensures
        r == (t@ == Seq::new(n as nat, |_i: int| c)),
{
    let len = t.unicode_len();
    if len != n {
        return false;
    }
    let mut i: usize = 0;
    while i < n
        invariant
            i <= n,
            t@.len() == n,
            forall|j: int| 0 <= j < i ==> t@[j] == c,
        decreases n - i,
    {
        if t.get_char(i) != c {
            assert(t@[i as int] != Seq::new(n as nat, |_i: int| c)[i as int]);
            return false;
        }
        i = i + 1;
    }
    assert(t@ == Seq::new(n as nat, |_i: int| c));
    true
}

fn toggle(marker: &str, bold: bool, italic: bool) -> (r: (bool, bool))
    ensures
        r == toggled(marker@, bold, italic),
{
    assert(Seq::new(3, |_i: int| '*') == seq!['*', '*', '*']);
    assert(Seq::new(2, |_i: int| '*') == seq!['*', '*']);
    assert(Seq::new(1, |_i: int| '*') == seq!['*']);
    assert(Seq::new(1, |_i: int| '_') == seq!['_']);
    if is_repeat(marker, '*', 3) {
        (!bold, !italic)
    } else if is_repeat(marker, '*', 2) {
        (!bold, italic)
    } else if is_repeat(marker, '*', 1) || is_repeat(marker, '_', 1) {
        (bold, !italic)
    } else {
        (bold, italic)
    }
}

/// The runs for the texts `gaps` between the emphasis markers `marks`:
/// each non-empty text a run in the bold/italic state the markers before it
/// leave, starting plain.
pub fn runs_between_markers(gaps: &Vec<String>, marks: &Vec<String>) -> (r: Vec<TextRun>)
    ensures
        runs_view(r@) == styled_runs(strings_view(gaps@), strings_view(marks@), 0, false, false),
{
    let ghost g = strings_view(gaps@);
    let ghost m = strings_view(marks@);
    let mut out: Vec<TextRun> = Vec::new();
    let mut bold = false;
    let mut italic = false;
    let mut i: usize = 0;
    assert(runs_view(out@) == Seq::<RunView>::empty());
    while i < gaps.len()
        invariant
            i <= gaps@.len(),
            g == strings_view(gaps@),
            m == strings_view(marks@),
            runs_view(out@) + styled_runs(g, m, i as int, bold, italic) == styled_runs(
                g,
                m,
                0,
                false,
                false,
            ),
        decreases gaps@.len() - i,
    {
        let ghost before = runs_view(out@);
        let ghost b0 = bold;
        let ghost i0 = italic;
        assert(gaps@[i as int]@ == g[i as int]);
        if !gaps[i].as_str().is_empty() {
            let r = apply_formatting(gaps[i].as_str(), bold, italic);
            push_run(&mut out, r);
        }
        if i < marks.len() {
            assert(marks@[i as int]@ == m[i as int]);
            let t = toggle(marks[i].as_str(), bold, italic);
            bold = t.0;
            italic = t.1;
        }
        proof {
            let here = if g[i as int].len() > 0 {
                seq![formatted_run(g[i as int], b0, i0)]
            } else {
                seq![]
            };
            assert(runs_view(out@) == before + here);
            assert(styled_runs(g, m, i as int, b0, i0) == here + styled_runs(
                g,
                m,
                i + 1,
                bold,
                italic,
            ));
            assert(before + (here + styled_runs(g, m, i + 1, bold, italic)) == (before + here)
                + styled_runs(g, m, i + 1, bold, italic));
        }
        i = i + 1;
    }
    assert(styled_runs(g, m, i as int, bold, italic) == Seq::<RunView>::empty());
    assert(runs_view(out@) + Seq::<RunView>::empty() == runs_view(out@));
    out
}

/// The runs of one paragraph's text: the text between emphasis markers,
/// formatted in the bold/italic state the markers before it leave.
pub fn runs_of_line(text: &str) -> (r: Vec<TextRun>)
    ensures
        runs_view(r@) == line_runs(text@),
{
    match regex_split_matches(TOKEN_PATTERN, text) {
        Ok(parts) => runs_between_markers(&parts.0, &parts.1),
        Err(_) => Vec::new(),
    }
}

/// Whether `t` is a heading line.
pub fn is_heading_line(t: &str) -> (r: bool)
    ensures
        r == is_heading(t@),
{
    match regex_matches(HEADING_PATTERN, t) {
        Ok(b) => b,
        Err(_) => false,
    }
}

/// The format of a paragraph of prose: double spaced, first line indented
/// half an inch.
pub open spec fn prose_format() -> ParaFormat {
    ParaFormat {
        align: None,
        line_spacing: Some(480),
        indent: Some(Indent { left: None, first_line: Some(720), end: None }),
    }
}

/// The format of a block quote: double spaced, indented half an inch on
/// both sides.
pub open spec fn quote_format() -> ParaFormat {
    ParaFormat {
        align: None,
        line_spacing: Some(480),
        indent: Some(Indent { left: Some(720), first_line: None, end: Some(720) }),
    }
}

/// The paragraph a line of a manuscript file becomes, if any: blank lines
/// and Markdown headings become none; a line starting with `>` is a block
/// quote.
pub open spec fn line_paragraph(line: Seq<char>) -> Option<ParaView> {
    let t = trim(line);
    if t.len() == 0 || is_heading(t) {
        None
    } else if t[0] == '>' {
        Some(para_view(quote_format(), line_runs(trim_start(t.skip(1)))))
    } else {
        Some(para_view(prose_format(), line_runs(t)))
    }
}

/// The paragraphs of the lines `ls`, in order.
pub open spec fn paragraphs_of_lines(ls: Seq<Seq<char>>) -> Seq<BlockView>
    decreases ls.len(),
{
    if ls.len() == 0 {
        seq![]
    } else {
        let before = paragraphs_of_lines(ls.drop_last());
        match line_paragraph(ls.last()) {
            Some(p) => before.push(BlockView::Para(p)),
            None => before,
        }
    }
}

/// The paragraphs of the text of a manuscript file.
pub open spec fn text_paragraphs(content: Seq<char>) -> Seq<BlockView> {
    paragraphs_of_lines(lines(content))
}

fn prose() -> (f: ParaFormat)
    ensures
        f == prose_format(),
{
    ParaFormat {
        align: None,
        line_spacing: Some(480),
        indent: Some(Indent { left: None, first_line: Some(720), end: None }),
    }
}

fn quote() -> (f: ParaFormat)
    ensures
        f == quote_format(),
{
    ParaFormat {
        align: None,
        line_spacing: Some(480),
        indent: Some(Indent { left: Some(720), first_line: None, end: Some(720) }),
    }
}

/// The paragraph of the line `c[lo..hi]`, if it makes one.
fn paragraph_of_line(c: &Vec<char>, lo: usize, hi: usize) -> (r: Option<Block>)
    requires
        lo <= hi <= c@.len(),
    ensures
        match line_paragraph(c@.subrange(lo as int, hi as int)) {
            Some(p) => r matches Some(b) && b@ == BlockView::Para(p),
            None => r is None,
        },
{
    let ghost line = c@.subrange(lo as int, hi as int);
    let (a, b) = trim_bounds(c, lo, hi);
    let ghost t = c@.subrange(a as int, b as int);
    if a == b {
        return None;
    }
    let ts = string_of(c, a, b);
    if is_heading_line(ts.as_str()) {
        return None;
    }
    if c[a] == '>' {
        let a2 = skip_ws_forward(c, a + 1, b);
        assert(t.skip(1) == c@.subrange(a + 1, b as int));
        let body = string_of(c, a2, b);
        let runs = runs_of_line(body.as_str());
        Some(Block::Para(para(quote(), runs)))
    } else {
        let runs = runs_of_line(ts.as_str());
        Some(Block::Para(para(prose(), runs)))
    }
}

/// The paragraphs of the text of a manuscript file: one per line that is
/// neither blank nor a Markdown heading, double spaced, with inline
/// emphasis and smart punctuation.
pub fn paragraphs_of_text(content: &str) -> (r: Vec<Block>)
    ensures
        blocks_view(r@) == text_paragraphs(content@),
{
    let c = chars_of(content);
    let bounds = line_bounds(&c);
    let ghost ls = lines(c@);
    let mut out: Vec<Block> = Vec::new();
    let mut k: usize = 0;
    assert(blocks_view(out@) == Seq::<BlockView>::empty());
    assert(ls.take(0) == Seq::<Seq<char>>::empty());
    while k < bounds.len()
        invariant
            k <= bounds@.len(),
            bounds@.len() == ls.len(),
            ls == lines(c@),
            forall|j: int|
                #![trigger bounds@[j]]
                0 <= j < bounds@.len() ==> {
                    &&& bounds@[j].0 <= bounds@[j].1 <= c@.len()
                    &&& ls[j] == c@.subrange(bounds@[j].0 as int, bounds@[j].1 as int)
                },
            blocks_view(out@) == paragraphs_of_lines(ls.take(k as int)),
        decreases bounds@.len() - k,
    {
        let (lo, hi) = bounds[k];
        assert(bounds@[k as int] == (lo, hi));
        assert(ls.take(k + 1).drop_last() == ls.take(k as int));
        assert(ls.take(k + 1).last() == ls[k as int]);
        match paragraph_of_line(&c, lo, hi) {
            Some(b) => push_block(&mut out, b),
            None => {},
        }
        k = k + 1;
    }
    assert(ls.take(k as int) == ls);
    out
}

/// The number of words a line adds to the word count: none for blank lines
/// and headings, otherwise its whitespace-separated words.
pub open spec fn line_words(line: Seq<char>) -> nat {
    let t = trim(line);
    if t.len() == 0 || is_heading(t) {
        0
    } else {
        word_count(t)
    }
}

/// The words of the lines `ls`.
pub open spec fn words_of_lines(ls: Seq<Seq<char>>) -> nat
    decreases ls.len(),
{
    if ls.len() == 0 {
        0
    } else {
        words_of_lines(ls.drop_last()) + line_words(ls.last())
    }
}

/// The number of words of a manuscript file, headings and blank lines left out.
pub open spec fn text_words(content: Seq<char>) -> nat {
    words_of_lines(lines(content))
}

/// Counts the words of the text of a manuscript file, headings and blank
/// lines left out.
pub fn words_of_text(content: &str) -> (r: usize)
    ensures
        r == text_words(content@),
        r <= content@.len(),
{
    let c = chars_of(content);
    let bounds = line_bounds(&c);
    let ghost ls = lines(c@);
    let mut total: usize = 0;
    let mut k: usize = 0;
    assert(ls.take(0) == Seq::<Seq<char>>::empty());
    while k < bounds.len()
        invariant
            k <= bounds@.len(),
            bounds@.len() == ls.len(),
            ls == lines(c@),
            forall|j: int|
                #![trigger bounds@[j]]
                0 <= j < bounds@.len() ==> {
                    &&& bounds@[j].0 <= bounds@[j].1 <= c@.len()
                    &&& ls[j] == c@.subrange(bounds@[j].0 as int, bounds@[j].1 as int)
                    &&& j > 0 ==> bounds@[j - 1].1 <= bounds@[j].0
                },
            total == words_of_lines(ls.take(k as int)),
            k == 0 ==> total == 0,
            k > 0 ==> total <= bounds@[k - 1].1,
        decreases bounds@.len() - k,
    {
        let (lo, hi) = bounds[k];
        assert(bounds@[k as int] == (lo, hi));
        assert(ls.take(k + 1).drop_last() == ls.take(k as int));
        assert(ls.take(k + 1).last() == ls[k as int]);
        let (a, b) = trim_bounds(&c, lo, hi);
        let mut n: usize = 0;
        if a < b {
            let ts = string_of(&c, a, b);
            if !is_heading_line(ts.as_str()) {
                n = count_words(&c, a, b);
                proof {
                    lemma_words_from_bound(c@.subrange(a as int, b as int), 0);
                }
            }
        }
        assert(n <= hi - lo);
        assert(k > 0 ==> total <= lo) by {
            if k > 0 {
                assert(bounds@[k as int - 1].1 <= bounds@[k as int].0);
            }
        }
        total = total + n;
        k = k + 1;
    }
    assert(ls.take(k as int) == ls);
    total
}

} // verus!
