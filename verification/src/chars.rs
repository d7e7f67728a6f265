//! Characters and plain text: whitespace, trimming, line splitting, word
//! counting and decimal numbers, all over `Seq<char>`.
use vstd::prelude::*;

verus! {

/// `String::push`: appends one character to the end of the string.
#[verifier::external_body]
pub(crate) fn string_push(s: &mut String, c: char)
    ensures
        final(s)@ == old(s)@.push(c),
{
    s.push(c);
}

/// The Unicode `White_Space` property, which is what `char::is_whitespace`,
/// `str::trim`, `str::split_whitespace` and the regex class `\s` go by.
pub open spec fn is_ws(c: char) -> bool {
    let u = c as u32;
    ||| (9 <= u && u <= 13)
    ||| u == 32
    ||| u == 0x85
    ||| u == 0xa0
    ||| u == 0x1680
    ||| (0x2000 <= u && u <= 0x200a)
    ||| u == 0x2028
    ||| u == 0x2029
    ||| u == 0x202f
    ||| u == 0x205f
    ||| u == 0x3000
}

/// Whether `c` has the Unicode `White_Space` property.
pub fn is_whitespace(c: char) -> (b: bool)
    ensures
        b == is_ws(c),
{
    let u = c as u32;
    (9 <= u && u <= 13) || u == 32 || u == 0x85 || u == 0xa0 || u == 0x1680 || (0x2000 <= u
        && u <= 0x200a) || u == 0x2028 || u == 0x2029 || u == 0x202f || u == 0x205f || u
        == 0x3000
}

/// `s` without its leading whitespace.
pub open spec fn trim_start(s: Seq<char>) -> Seq<char>
    decreases s.len(),
{
    if s.len() > 0 && is_ws(s[0]) {
        trim_start(s.drop_first())
    } else {
        s
    }
}

/// `s` without its trailing whitespace.
pub open spec fn trim_end(s: Seq<char>) -> Seq<char>
    decreases s.len(),
{
    if s.len() > 0 && is_ws(s.last()) {
        trim_end(s.drop_last())
    } else {
        s
    }
}

/// `s` without leading and trailing whitespace, as `str::trim` gives it.
pub open spec fn trim(s: Seq<char>) -> Seq<char> {
    trim_end(trim_start(s))
}

/// The characters of `s`, in order.
pub fn chars_of(s: &str) -> (r: Vec<char>)
    ensures
        r@ == s@,
{
    let mut r: Vec<char> = Vec::new();
    for c in it: s.chars()
        invariant
            r@ == it.seq().take(it.index() as int),
            it.seq() == s@,
    {
        r.push(c);
    }
    r
}

/// The string made of the characters `s[lo..hi]`.
pub fn string_of(s: &Vec<char>, lo: usize, hi: usize) -> (r: String)
    requires
        lo <= hi <= s@.len(),
    ensures
        r@ == s@.subrange(lo as int, hi as int),
{
    let mut r = String::new();
    let mut i = lo;
    while i < hi
        invariant
            lo <= i <= hi <= s@.len(),
            r@ == s@.subrange(lo as int, i as int),
        decreases hi - i,
    {
        string_push(&mut r, s[i]);
        assert(s@.subrange(lo as int, i + 1) == s@.subrange(lo as int, i as int).push(s@[i as int]));
        i = i + 1;
    }
    r
}

/// The first index at or after `lo` whose character is not whitespace (or `hi`).
pub fn skip_ws_forward(s: &Vec<char>, lo: usize, hi: usize) -> (r: usize)
    requires
        lo <= hi <= s@.len(),
    ensures
        lo <= r <= hi,
        s@.subrange(r as int, hi as int) == trim_start(s@.subrange(lo as int, hi as int)),
{
    let mut i = lo;
    while i < hi && is_whitespace(s[i])
        invariant
            lo <= i <= hi <= s@.len(),
            trim_start(s@.subrange(i as int, hi as int)) == trim_start(
                s@.subrange(lo as int, hi as int),
            ),
        decreases hi - i,
    {
        assert(s@.subrange(i as int, hi as int).drop_first() == s@.subrange(i + 1, hi as int));
        i = i + 1;
    }
    i
}

/// The index after the last character before `hi` that is not whitespace (or `lo`).
pub fn skip_ws_backward(s: &Vec<char>, lo: usize, hi: usize) -> (r: usize)
    requires
        lo <= hi <= s@.len(),
    ensures
        lo <= r <= hi,
        s@.subrange(lo as int, r as int) == trim_end(s@.subrange(lo as int, hi as int)),
{
    let mut j = hi;
    while j > lo && is_whitespace(s[j - 1])
        invariant
            lo <= j <= hi <= s@.len(),
            trim_end(s@.subrange(lo as int, j as int)) == trim_end(
                s@.subrange(lo as int, hi as int),
            ),
        decreases j - lo,
    {
        assert(s@.subrange(lo as int, j as int).drop_last() == s@.subrange(lo as int, j - 1));
        j = j - 1;
    }
    j
}

/// The bounds of `trim(s[lo..hi])` within `s`.
pub fn trim_bounds(s: &Vec<char>, lo: usize, hi: usize) -> (r: (usize, usize))
    requires
        lo <= hi <= s@.len(),
    ensures
        lo <= r.0 <= r.1 <= hi,
        s@.subrange(r.0 as int, r.1 as int) == trim(s@.subrange(lo as int, hi as int)),
{
    let a = skip_ws_forward(s, lo, hi);
    let b = skip_ws_backward(s, a, hi);
    (a, b)
}

/// The index of the first line feed at or after `i`, or `s.len()`.
pub open spec fn line_end(s: Seq<char>, i: int) -> int
    decreases s.len() - i,
{
    if i >= s.len() || s[i] == '\n' {
        i
    } else {
        line_end(s, i + 1)
    }
}

pub proof fn lemma_line_end(s: Seq<char>, i: int)
    requires
        0 <= i <= s.len(),
    ensures
        i <= line_end(s, i) <= s.len(),
        line_end(s, i) < s.len() ==> s[line_end(s, i)] == '\n',
        forall|k: int| i <= k < line_end(s, i) ==> s[k] != '\n',
    decreases s.len() - i,
{
    if i < s.len() && s[i] != '\n' {
        lemma_line_end(s, i + 1);
    }
}

/// A line that ended in a line feed loses a final carriage return.
pub open spec fn strip_cr(line: Seq<char>) -> Seq<char> {
    if line.len() > 0 && line.last() == '\r' {
        line.drop_last()
    } else {
        line
    }
}

/// The lines of `s` from index `i` on, as `str::lines` gives them: split at
/// each line feed, a carriage return before it removed, no empty line after
/// a final line feed.
pub open spec fn lines_from(s: Seq<char>, i: int) -> Seq<Seq<char>>
    decreases s.len() - i,
{
    if i < 0 || i >= s.len() {
        seq![]
    } else {
        let e = line_end(s, i);
        if e < i {
            seq![]
        } else if e < s.len() {
            seq![strip_cr(s.subrange(i, e))] + lines_from(s, e + 1)
        } else {
            seq![s.subrange(i, e)]
        }
    }
}

/// The lines of `s`, as `str::lines` gives them.
pub open spec fn lines(s: Seq<char>) -> Seq<Seq<char>> {
    lines_from(s, 0)
}

/// The bounds within `s` of each of its lines.
pub fn line_bounds(s: &Vec<char>) -> (r: Vec<(usize, usize)>)
    ensures
        r@.len() == lines(s@).len(),
        forall|k: int|
            #![trigger r@[k]]
            0 <= k < r@.len() ==> {
                &&& r@[k].0 <= r@[k].1 <= s@.len()
                &&& lines(s@)[k] == s@.subrange(r@[k].0 as int, r@[k].1 as int)
                &&& k > 0 ==> r@[k - 1].1 <= r@[k].0
            },
{
    let n = s.len();
    let mut r: Vec<(usize, usize)> = Vec::new();
    let mut i: usize = 0;
    let ghost done: Seq<Seq<char>> = seq![];
    while i < n
        invariant
            n == s@.len(),
            i <= n,
            done.len() == r@.len(),
            lines(s@) == done + lines_from(s@, i as int),
            forall|k: int|
                #![trigger r@[k]]
                0 <= k < r@.len() ==> {
                    &&& r@[k].0 <= r@[k].1 <= s@.len()
                    &&& done[k] == s@.subrange(r@[k].0 as int, r@[k].1 as int)
                    &&& k > 0 ==> r@[k - 1].1 <= r@[k].0
                    &&& r@[k].1 <= i
                },
        decreases n - i,
    {
        let mut e = i;
        while e < n && s[e] != '\n'
            invariant
                i <= e <= n,
                n == s@.len(),
                line_end(s@, e as int) == line_end(s@, i as int),
            decreases n - e,
        {
            e = e + 1;
        }
        proof {
            lemma_line_end(s@, i as int);
        }
        let ghost old_done = done;
        if e < n {
            let mut stop = e;
            if stop > i && s[stop - 1] == '\r' {
                stop = stop - 1;
                assert(s@.subrange(i as int, e as int).drop_last() == s@.subrange(
                    i as int,
                    stop as int,
                ));
            }
            proof {
                let line = strip_cr(s@.subrange(i as int, e as int));
                assert(line == s@.subrange(i as int, stop as int));
                assert(lines_from(s@, i as int) == seq![line] + lines_from(s@, e + 1));
                assert(done + lines_from(s@, i as int) == done.push(line) + lines_from(s@, e + 1));
                done = done.push(line);
            }
            let ghost old_r = r@;
            r.push((i, stop));
            assert forall|k: int| #![trigger r@[k]] 0 <= k < r@.len() implies {
                &&& r@[k].0 <= r@[k].1 <= s@.len()
                &&& done[k] == s@.subrange(r@[k].0 as int, r@[k].1 as int)
                &&& k > 0 ==> r@[k - 1].1 <= r@[k].0
                &&& r@[k].1 <= e + 1
            } by {
                if k < old_r.len() {
                    assert(r@[k] == old_r[k]);
                    assert(done[k] == old_done[k]);
                }
                if k > 0 {
                    assert(r@[k - 1] == old_r[k - 1]);
                }
            }
            i = e + 1;
        } else {
            proof {
                let line = s@.subrange(i as int, e as int);
                assert(lines_from(s@, i as int) == seq![line]);
                assert(lines_from(s@, e as int) == Seq::<Seq<char>>::empty());
                assert(done + lines_from(s@, i as int) == done.push(line) + lines_from(s@, e as int));
                done = done.push(line);
            }
            let ghost old_r = r@;
            r.push((i, e));
            assert forall|k: int| #![trigger r@[k]] 0 <= k < r@.len() implies {
                &&& r@[k].0 <= r@[k].1 <= s@.len()
                &&& done[k] == s@.subrange(r@[k].0 as int, r@[k].1 as int)
                &&& k > 0 ==> r@[k - 1].1 <= r@[k].0
                &&& r@[k].1 <= e
            } by {
                if k < old_r.len() {
                    assert(r@[k] == old_r[k]);
                    assert(done[k] == old_done[k]);
                }
                if k > 0 {
                    assert(r@[k - 1] == old_r[k - 1]);
                }
            }
            i = e;
        }
    }
    assert(lines_from(s@, i as int) == Seq::<Seq<char>>::empty());
    assert(done + Seq::<Seq<char>>::empty() == done);
    assert(lines(s@) == done);
    r
}

/// Whether a word starts at index `i` of `s`.
pub open spec fn word_starts_at(s: Seq<char>, i: int) -> bool {
    !is_ws(s[i]) && (i == 0 || is_ws(s[i - 1]))
}

/// The number of words of `s` from index `i` on.
pub open spec fn words_from(s: Seq<char>, i: int) -> nat
    decreases s.len() - i,
{
    if i < 0 || i >= s.len() {
        0
    } else {
        (if word_starts_at(s, i) {
            1nat
        } else {
            0nat
        }) + words_from(s, i + 1)
    }
}

/// The number of whitespace-separated words of `s`, as
/// `str::split_whitespace().count()` gives it.
pub open spec fn word_count(s: Seq<char>) -> nat {
    words_from(s, 0)
}

pub proof fn lemma_words_from_bound(s: Seq<char>, i: int)
    requires
        0 <= i <= s.len(),
    ensures
        words_from(s, i) <= s.len() - i,
    decreases s.len() - i,
{
    if i < s.len() {
        lemma_words_from_bound(s, i + 1);
    }
}

/// The number of words of `s[lo..hi]`.
pub fn count_words(s: &Vec<char>, lo: usize, hi: usize) -> (r: usize)
    requires
        lo <= hi <= s@.len(),
    ensures
        r == word_count(s@.subrange(lo as int, hi as int)),
{
    let ghost t = s@.subrange(lo as int, hi as int);
    let mut cnt: usize = 0;
    let mut k = lo;
    proof {
        lemma_words_from_bound(t, 0);
    }
    while k < hi
        invariant
            lo <= k <= hi <= s@.len(),
            t == s@.subrange(lo as int, hi as int),
            cnt + words_from(t, k - lo) == words_from(t, 0),
            words_from(t, 0) <= t.len(),
        decreases hi - k,
    {
        let starts = !is_whitespace(s[k]) && (k == lo || is_whitespace(s[k - 1]));
        assert(starts == word_starts_at(t, k - lo));
        if starts {
            cnt = cnt + 1;
        }
        k = k + 1;
    }
    cnt
}

/// The decimal digit `d` as a character.
pub open spec fn digit_char(d: int) -> char {
    if d == 0 {
        '0'
    } else if d == 1 {
        '1'
    } else if d == 2 {
        '2'
    } else if d == 3 {
        '3'
    } else if d == 4 {
        '4'
    } else if d == 5 {
        '5'
    } else if d == 6 {
        '6'
    } else if d == 7 {
        '7'
    } else if d == 8 {
        '8'
    } else {
        '9'
    }
}

fn digit(d: usize) -> (c: char)
    requires
        d < 10,
    ensures
        c == digit_char(d as int),
{
    if d == 0 {
        '0'
    } else if d == 1 {
        '1'
    } else if d == 2 {
        '2'
    } else if d == 3 {
        '3'
    } else if d == 4 {
        '4'
    } else if d == 5 {
        '5'
    } else if d == 6 {
        '6'
    } else if d == 7 {
        '7'
    } else if d == 8 {
        '8'
    } else {
        '9'
    }
}

/// The decimal representation of `n`, without leading zeros.
pub open spec fn decimal(n: nat) -> Seq<char>
    decreases n,
{
    if n < 10 {
        seq![digit_char(n as int)]
    } else {
        decimal(n / 10).push(digit_char((n % 10) as int))
    }
}

/// Appends the decimal representation of `n` to `s`.
pub fn push_decimal(s: &mut String, n: usize)
    ensures
        final(s)@ == old(s)@ + decimal(n as nat),
    decreases n,
{
    if n >= 10 {
        push_decimal(s, n / 10);
    }
    string_push(s, digit(n % 10));
}

/// Appends `t` to `s`.
pub fn push_str(s: &mut String, t: &str)
    ensures
        final(s)@ == old(s)@ + t@,
{
    let tc = chars_of(t);
    let ghost s0 = s@;
    let mut k: usize = 0;
    while k < tc.len()
        invariant
            k <= tc@.len(),
            tc@ == t@,
            s@ == s0 + tc@.take(k as int),
        decreases tc@.len() - k,
    {
        string_push(s, tc[k]);
        assert(tc@.take(k + 1) == tc@.take(k as int).push(tc@[k as int]));
        k = k + 1;
    }
    assert(tc@.take(k as int) == tc@);
}

} // verus!
