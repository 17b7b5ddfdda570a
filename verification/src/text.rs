//! Character-level text utilities with their mathematical models.

use vstd::prelude::*;

verus! {

/// The Unicode `White_Space` property, which `char::is_whitespace` decides.
pub open spec fn is_white_space(c: char) -> bool {
    ||| ('\u{9}' <= c && c <= '\u{d}')
    ||| c == ' '
    ||| c == '\u{85}'
    ||| c == '\u{a0}'
    ||| c == '\u{1680}'
    ||| ('\u{2000}' <= c && c <= '\u{200a}')
    ||| c == '\u{2028}'
    ||| c == '\u{2029}'
    ||| c == '\u{202f}'
    ||| c == '\u{205f}'
    ||| c == '\u{3000}'
}

/// Decides the Unicode `White_Space` property of `c`.
pub fn white_space(c: char) -> (b: bool)
    ensures
        b == is_white_space(c),
{
    ('\u{9}' <= c && c <= '\u{d}') || c == ' ' || c == '\u{85}' || c == '\u{a0}'
        || c == '\u{1680}' || ('\u{2000}' <= c && c <= '\u{200a}') || c == '\u{2028}'
        || c == '\u{2029}' || c == '\u{202f}' || c == '\u{205f}' || c == '\u{3000}'
}

/// Length of the run of non-whitespace characters that starts `s`.
pub open spec fn word_len(s: Seq<char>) -> nat
    decreases s.len(),
{
    if s.len() == 0 || is_white_space(s[0]) {
        0
    } else {
        1 + word_len(s.drop_first())
    }
}

/// The whitespace-separated words of `s`, as `str::split_whitespace` yields them.
pub open spec fn words(s: Seq<char>) -> Seq<Seq<char>>
    decreases s.len(),
{
    if s.len() == 0 {
        seq![]
    } else if is_white_space(s[0]) {
        words(s.drop_first())
    } else {
        let n = word_len(s);
        proof {
            lemma_word_len_bound(s);
        }
        seq![s.take(n as int)] + words(s.skip(n as int))
    }
}

/// A word is no longer than the text, and not empty when the text starts
/// with a non-whitespace character.
pub proof fn lemma_word_len_bound(s: Seq<char>)
    ensures
        word_len(s) <= s.len(),
        s.len() > 0 && !is_white_space(s[0]) ==> word_len(s) > 0,
    decreases s.len(),
{
    if s.len() > 0 && !is_white_space(s[0]) {
        lemma_word_len_bound(s.drop_first());
    }
}

/// Leading whitespace does not change the words of a text.
pub proof fn lemma_words_skip_white_space(s: Seq<char>, i: int)
    requires
        0 <= i <= s.len(),
        forall|k: int| 0 <= k < i ==> is_white_space(#[trigger] s[k]),
    ensures
        words(s) == words(s.skip(i)),
    decreases i,
{
    if i == 0 {
        assert(s.skip(0) =~= s);
    } else {
        lemma_words_skip_white_space(s.drop_first(), i - 1);
        assert(s.drop_first().skip(i - 1) =~= s.skip(i));
    }
}

/// `word_len` is the index of the first whitespace character, or the length.
pub proof fn lemma_word_len_exact(s: Seq<char>, j: int)
    requires
        0 <= j <= s.len(),
        forall|k: int| 0 <= k < j ==> !is_white_space(#[trigger] s[k]),
        j == s.len() || is_white_space(s[j]),
    ensures
        word_len(s) == j,
    decreases j,
{
    if j > 0 {
        lemma_word_len_exact(s.drop_first(), j - 1);
    }
}

proof fn lemma_word_len_append(s: Seq<char>, t: Seq<char>)
    requires
        t.len() == 0 || is_white_space(t[0]),
    ensures
        word_len(s + t) == word_len(s),
    decreases s.len(),
{
    if s.len() == 0 {
        assert(s + t =~= t);
    } else {
        assert((s + t)[0] == s[0]);
        if !is_white_space(s[0]) {
            assert((s + t).drop_first() =~= s.drop_first() + t);
            lemma_word_len_append(s.drop_first(), t);
        }
    }
}

/// A text of whitespace only has no words.
pub proof fn lemma_words_all_white_space(t: Seq<char>)
    requires
        forall|k: int| 0 <= k < t.len() ==> is_white_space(#[trigger] t[k]),
    ensures
        words(t) == Seq::<Seq<char>>::empty(),
{
    lemma_words_skip_white_space(t, t.len() as int);
    assert(t.skip(t.len() as int) =~= Seq::<char>::empty());
}

/// Whitespace before a text does not change its words.
pub proof fn lemma_words_prepend_white_space(w: Seq<char>, s: Seq<char>)
    requires
        forall|k: int| 0 <= k < w.len() ==> is_white_space(#[trigger] w[k]),
    ensures
        words(w + s) == words(s),
{
    assert forall|k: int| 0 <= k < w.len() implies is_white_space(#[trigger] (w + s)[k]) by {
        assert((w + s)[k] == w[k]);
    }
    lemma_words_skip_white_space(w + s, w.len() as int);
    assert((w + s).skip(w.len() as int) =~= s);
}

/// Whitespace after a text does not change its words.
pub proof fn lemma_words_append_white_space(s: Seq<char>, t: Seq<char>)
    requires
        forall|k: int| 0 <= k < t.len() ==> is_white_space(#[trigger] t[k]),
    ensures
        words(s + t) == words(s),
    decreases s.len(),
{
    if s.len() == 0 {
        assert(s + t =~= t);
        lemma_words_all_white_space(t);
    } else {
        assert((s + t)[0] == s[0]);
        assert((s + t).drop_first() =~= s.drop_first() + t);
        if is_white_space(s[0]) {
            lemma_words_append_white_space(s.drop_first(), t);
        } else {
            if t.len() > 0 {
                assert(is_white_space(t[0]));
            }
            lemma_word_len_append(s, t);
            lemma_word_len_bound(s);
            let n = word_len(s) as int;
            assert((s + t).take(n) =~= s.take(n));
            assert((s + t).skip(n) =~= s.skip(n) + t);
            lemma_words_append_white_space(s.skip(n), t);
        }
    }
}

/// A word followed by nothing or by whitespace is the first word of the text.
pub proof fn lemma_first_word_of(w: Seq<char>, t: Seq<char>)
    requires
        w.len() > 0,
        forall|k: int| 0 <= k < w.len() ==> !is_white_space(#[trigger] w[k]),
        t.len() == 0 || is_white_space(t[0]),
    ensures
        words(w + t).len() > 0,
        words(w + t)[0] == w,
{
    let s = w + t;
    assert forall|k: int| 0 <= k < w.len() implies !is_white_space(#[trigger] s[k]) by {
        assert(s[k] == w[k]);
    }
    if t.len() > 0 {
        assert(s[w.len() as int] == t[0]);
    }
    lemma_word_len_exact(s, w.len() as int);
    assert(s.take(w.len() as int) =~= w);
    assert(!is_white_space(s[0]));
}

/// The first whitespace-separated word of `s`, if it has one.
pub fn first_word(s: &str) -> (w: Option<String>)
    ensures
        match w {
            None => words(s@).len() == 0,
            Some(w) => words(s@).len() > 0 && w@ == words(s@)[0],
        },
{
    let cs = chars_of(s);
    let n = cs.len();
    let mut i: usize = 0;
    while i < n && white_space(cs[i])
        invariant
            cs@ == s@,
            n == cs@.len(),
            i <= n,
            forall|k: int| 0 <= k < i ==> is_white_space(#[trigger] s@[k]),
        decreases n - i,
    {
        i = i + 1;
    }
    proof {
        lemma_words_skip_white_space(s@, i as int);
    }
    if i == n {
        assert(s@.skip(i as int).len() == 0);
        return None;
    }
    let mut j: usize = i;
    while j < n && !white_space(cs[j])
        invariant
            cs@ == s@,
            n == cs@.len(),
            i <= j <= n,
            forall|k: int| i <= k < j ==> !is_white_space(#[trigger] s@[k]),
        decreases n - j,
    {
        j = j + 1;
    }
    let ghost rest = s@.skip(i as int);
    proof {
        assert forall|k: int| 0 <= k < j - i implies !is_white_space(#[trigger] rest[k]) by {
            assert(rest[k] == s@[i + k]);
        }
        lemma_word_len_exact(rest, j - i);
        assert(rest.take(j - i) =~= s@.subrange(i as int, j as int));
    }
    let word = s.substring_char(i, j).to_string();
    Some(word)
}

/// Index of the first line feed in `s`, or its length when it has none.
pub open spec fn line_end(s: Seq<char>) -> nat
    decreases s.len(),
{
    if s.len() == 0 || s[0] == '\n' {
        0
    } else {
        1 + line_end(s.drop_first())
    }
}

/// `line` without one trailing carriage return.
pub open spec fn strip_cr(line: Seq<char>) -> Seq<char> {
    if line.len() > 0 && line.last() == '\r' {
        line.drop_last()
    } else {
        line
    }
}

/// The lines of `s`, as `str::lines` yields them: split at each `\n`, with
/// one `\r` removed before each `\n`, and no empty line after a final `\n`.
pub open spec fn lines(s: Seq<char>) -> Seq<Seq<char>>
    decreases s.len(),
{
    if s.len() == 0 {
        seq![]
    } else {
        let k = line_end(s);
        proof {
            lemma_line_end_bound(s);
        }
        if k == s.len() {
            seq![s]
        } else {
            seq![strip_cr(s.take(k as int))] + lines(s.skip(k + 1 as int))
        }
    }
}

/// `line_end` never exceeds the length.
pub proof fn lemma_line_end_bound(s: Seq<char>)
    ensures
        line_end(s) <= s.len(),
    decreases s.len(),
{
    if s.len() > 0 && s[0] != '\n' {
        lemma_line_end_bound(s.drop_first());
    }
}

/// `line_end` is the index of the first line feed, or the length.
pub proof fn lemma_line_end_exact(s: Seq<char>, j: int)
    requires
        0 <= j <= s.len(),
        forall|k: int| 0 <= k < j ==> #[trigger] s[k] != '\n',
        j == s.len() || s[j] == '\n',
    ensures
        line_end(s) == j,
    decreases j,
{
    if j > 0 {
        lemma_line_end_exact(s.drop_first(), j - 1);
    }
}

proof fn lemma_line_end_append(s: Seq<char>, t: Seq<char>)
    requires
        line_end(s) < s.len(),
    ensures
        line_end(s + t) == line_end(s),
    decreases s.len(),
{
    assert((s + t)[0] == s[0]);
    if s[0] != '\n' {
        assert((s + t).drop_first() =~= s.drop_first() + t);
        lemma_line_end_append(s.drop_first(), t);
    }
}

proof fn lemma_line_end_char(s: Seq<char>)
    requires
        line_end(s) < s.len(),
    ensures
        s[line_end(s) as int] == '\n',
    decreases s.len(),
{
    if s[0] != '\n' {
        lemma_line_end_char(s.drop_first());
    }
}

proof fn lemma_no_line_feed(s: Seq<char>)
    requires
        line_end(s) == s.len(),
    ensures
        forall|k: int| 0 <= k < s.len() ==> #[trigger] s[k] != '\n',
    decreases s.len(),
{
    if s.len() > 0 {
        lemma_no_line_feed(s.drop_first());
        assert forall|k: int| 0 <= k < s.len() implies #[trigger] s[k] != '\n' by {
            if k > 0 {
                assert(s[k] == s.drop_first()[k - 1]);
            }
        }
    }
}

/// A line feed ending a text whose last line ends in neither a line feed nor
/// a carriage return adds no line: the final line ending is optional.
pub proof fn lemma_lines_final_line_feed(s: Seq<char>)
    requires
        s.len() > 0,
        s.last() != '\n',
        s.last() != '\r',
    ensures
        lines(s.push('\n')) == lines(s),
    decreases s.len(),
{
    let t = s.push('\n');
    lemma_line_end_bound(s);
    let k = line_end(s) as int;
    if k == s.len() {
        lemma_no_line_feed(s);
        assert forall|j: int| 0 <= j < s.len() implies #[trigger] t[j] != '\n' by {
            assert(t[j] == s[j]);
        }
        lemma_line_end_exact(t, s.len() as int);
        assert(t.take(s.len() as int) =~= s);
        assert(t.skip(s.len() as int + 1) =~= Seq::<char>::empty());
        assert(lines(Seq::<char>::empty()) =~= Seq::<Seq<char>>::empty());
        assert(strip_cr(s) == s);
        assert(lines(t) =~= seq![s]);
    } else {
        assert(s + seq!['\n'] =~= t);
        lemma_line_end_append(s, seq!['\n']);
        lemma_line_end_char(s);
        assert(s[k as int] == '\n');
        assert(k + 1 < s.len());
        let r = s.skip(k + 1);
        assert(t.take(k as int) =~= s.take(k as int));
        assert(t.skip(k + 1) =~= r.push('\n'));
        assert(r.last() == s.last());
        lemma_lines_final_line_feed(r);
    }
}

/// A final carriage return and line feed after a text that does not end in a
/// line feed adds no line.
pub proof fn lemma_lines_final_crlf(s: Seq<char>)
    requires
        s.len() > 0,
        s.last() != '\n',
    ensures
        lines(s.push('\r').push('\n')) == lines(s),
    decreases s.len(),
{
    let t = s.push('\r').push('\n');
    lemma_line_end_bound(s);
    let k = line_end(s) as int;
    if k == s.len() {
        lemma_no_line_feed(s);
        assert forall|j: int| 0 <= j < s.len() as int + 1 implies #[trigger] t[j] != '\n' by {
            if j < s.len() {
                assert(t[j] == s[j]);
            }
        }
        lemma_line_end_exact(t, s.len() as int + 1);
        assert(t.take(s.len() as int + 1) =~= s.push('\r'));
        assert(s.push('\r').drop_last() =~= s);
        assert(t.skip(s.len() as int + 2) =~= Seq::<char>::empty());
        assert(lines(Seq::<char>::empty()) =~= Seq::<Seq<char>>::empty());
        assert(strip_cr(s.push('\r')) == s);
        assert(lines(t) =~= seq![s]);
    } else {
        assert(s + seq!['\r', '\n'] =~= t);
        lemma_line_end_append(s, seq!['\r', '\n']);
        lemma_line_end_char(s);
        assert(s[k as int] == '\n');
        assert(k + 1 < s.len());
        let r = s.skip(k + 1);
        assert(t.take(k as int) =~= s.take(k as int));
        assert(t.skip(k + 1) =~= r.push('\r').push('\n'));
        assert(r.last() == s.last());
        lemma_lines_final_crlf(r);
    }
}

/// The views of a sequence of strings.
pub open spec fn texts(v: Seq<String>) -> Seq<Seq<char>> {
    v.map_values(|x: String| x@)
}

/// The first lines of a text and how many lines follow them.
pub struct LinePreview {
    pub shown: Vec<String>,
    pub hidden: usize,
}

impl LinePreview {
    /// `self` shows the first `limit` lines of `text` (all of them when it has
    /// fewer) and counts the lines that follow.
    pub open spec fn previews(&self, text: Seq<char>, limit: nat) -> bool {
        let all = lines(text);
        let n: nat = if all.len() < limit { all.len() } else { limit };
        &&& texts(self.shown@) == all.take(n as int)
        &&& self.hidden == all.len() - n
    }
}

/// The chars of `s` in `[from, to)`, without one trailing carriage return.
fn line_text(s: &str, cs: &Vec<char>, from: usize, to: usize) -> (line: String)
    requires
        cs@ == s@,
        from <= to <= cs@.len(),
    ensures
        line@ == strip_cr(s@.subrange(from as int, to as int)),
{
    let end = if to > from && cs[to - 1] == '\r' {
        to - 1
    } else {
        to
    };
    assert(s@.subrange(from as int, to as int).drop_last() =~= s@.subrange(from as int, end as int)
        || end == to);
    s.substring_char(from, end).to_string()
}

/// The first `limit` lines of `text` and the number of lines after them.
pub fn line_preview(text: &str, limit: usize) -> (p: LinePreview)
    ensures
        p.previews(text@, limit as nat),
{
    let cs = chars_of(text);
    let n = cs.len();
    let mut shown: Vec<String> = Vec::new();
    let mut count: usize = 0;
    let mut start: usize = 0;
    let ghost mut done: Seq<Seq<char>> = seq![];
    assert(text@.skip(0) =~= text@);
    for i in 0..n
        invariant
            cs@ == text@,
            n == cs@.len(),
            start <= i,
            lines(text@) == done + lines(text@.skip(start as int)),
            forall|k: int| start <= k < i ==> #[trigger] text@[k] != '\n',
            count == done.len(),
            count <= start,
            texts(shown@) == done.take(
                if done.len() < limit { done.len() as int } else { limit as int },
            ),
    {
        if cs[i] == '\n' {
            let line = line_text(text, &cs, start, i);
            let ghost rest = text@.skip(start as int);
            proof {
                assert forall|k: int| 0 <= k < i - start implies #[trigger] rest[k] != '\n' by {
                    assert(rest[k] == text@[start + k]);
                }
                assert(rest[i - start] == text@[i as int]);
                lemma_line_end_exact(rest, i - start);
                assert(rest.take(i - start) =~= text@.subrange(start as int, i as int));
                assert(rest.skip(i - start + 1) =~= text@.skip(i + 1));
                assert(done + lines(rest) =~= done.push(line@) + lines(text@.skip(i + 1)));
            }
            let ghost before = shown@;
            if count < limit {
                shown.push(line);
                assert(texts(shown@) =~= texts(before).push(line@));
            }
            proof {
                assert(texts(shown@) =~= done.push(line@).take(
                    if done.len() + 1 < limit { done.len() + 1 as int } else { limit as int },
                ));
                done = done.push(line@);
            }
            count = count + 1;
            start = i + 1;
        }
    }
    if start < n {
        let line = text.substring_char(start, n).to_string();
        let ghost rest = text@.skip(start as int);
        proof {
            assert forall|k: int| 0 <= k < n - start implies #[trigger] rest[k] != '\n' by {
                assert(rest[k] == text@[start + k]);
            }
            lemma_line_end_exact(rest, n - start);
            assert(rest =~= text@.subrange(start as int, n as int));
            assert(done + lines(rest) =~= done.push(line@));
        }
        let ghost before = shown@;
        if count < limit {
            shown.push(line);
            assert(texts(shown@) =~= texts(before).push(line@));
        }
        proof {
            assert(texts(shown@) =~= done.push(line@).take(
                if done.len() + 1 < limit { done.len() + 1 as int } else { limit as int },
            ));
            done = done.push(line@);
        }
        count = count + 1;
    } else {
        assert(text@.skip(start as int).len() == 0);
        assert(done + lines(text@.skip(start as int)) =~= done);
    }
    let hidden = if count < limit { 0 } else { count - limit };
    LinePreview { shown, hidden }
}

/// The chars of `s`, in order.
pub fn chars_of(s: &str) -> (v: Vec<char>)
    ensures
        v@ == s@,
{
    let mut v: Vec<char> = Vec::new();
    for c in it: s.chars()
        invariant
            v@ == it.seq().take(it.index() as int),
    {
        v.push(c);
    }
    v
}

/// `s` without its leading whitespace.
pub open spec fn trim_start(s: Seq<char>) -> Seq<char>
    decreases s.len(),
{
    if s.len() > 0 && is_white_space(s[0]) {
        trim_start(s.drop_first())
    } else {
        s
    }
}

/// `s` without its trailing whitespace.
pub open spec fn trim_end(s: Seq<char>) -> Seq<char>
    decreases s.len(),
{
    if s.len() > 0 && is_white_space(s.last()) {
        trim_end(s.drop_last())
    } else {
        s
    }
}

/// `s` without leading and trailing whitespace, as `str::trim` gives it.
pub open spec fn trim(s: Seq<char>) -> Seq<char> {
    trim_end(trim_start(s))
}

proof fn lemma_trim_start_at(s: Seq<char>, i: int)
    requires
        0 <= i <= s.len(),
        forall|k: int| 0 <= k < i ==> is_white_space(#[trigger] s[k]),
        i == s.len() || !is_white_space(s[i]),
    ensures
        trim_start(s) == s.skip(i),
    decreases i,
{
    if i == 0 {
        assert(s.skip(0) =~= s);
    } else {
        lemma_trim_start_at(s.drop_first(), i - 1);
        assert(s.drop_first().skip(i - 1) =~= s.skip(i));
    }
}

proof fn lemma_trim_end_at(s: Seq<char>, j: int)
    requires
        0 <= j <= s.len(),
        forall|k: int| j <= k < s.len() ==> is_white_space(#[trigger] s[k]),
        j == 0 || !is_white_space(s[j - 1]),
    ensures
        trim_end(s) == s.take(j),
    decreases s.len() - j,
{
    if j == s.len() {
        assert(s.take(j) =~= s);
    } else {
        assert(is_white_space(s[s.len() - 1]));
        lemma_trim_end_at(s.drop_last(), j);
        assert(s.drop_last().take(j) =~= s.take(j));
    }
}

/// `s` without leading and trailing whitespace.
pub fn trimmed(s: &str) -> (t: String)
    ensures
        t@ == trim(s@),
{
    let cs = chars_of(s);
    let n = cs.len();
    let mut i: usize = 0;
    while i < n && white_space(cs[i])
        invariant
            cs@ == s@,
            n == cs@.len(),
            i <= n,
            forall|k: int| 0 <= k < i ==> is_white_space(#[trigger] s@[k]),
        decreases n - i,
    {
        i = i + 1;
    }
    let mut j: usize = n;
    while j > i && white_space(cs[j - 1])
        invariant
            cs@ == s@,
            n == cs@.len(),
            i <= j <= n,
            forall|k: int| j <= k < n ==> is_white_space(#[trigger] s@[k]),
        decreases j,
    {
        j = j - 1;
    }
    proof {
        lemma_trim_start_at(s@, i as int);
        let rest = s@.skip(i as int);
        assert forall|k: int| j - i <= k < rest.len() implies is_white_space(#[trigger] rest[k]) by {
            assert(rest[k] == s@[i + k]);
        }
        if j > i {
            assert(rest[j - i - 1] == s@[j - 1]);
        }
        lemma_trim_end_at(rest, j - i);
        assert(rest.take(j - i) =~= s@.subrange(i as int, j as int));
    }
    s.substring_char(i, j).to_string()
}

/// The code of `c` with ASCII uppercase letters mapped to lowercase.
pub open spec fn ascii_lower_code(c: char) -> u32 {
    if 65 <= (c as u32) && (c as u32) <= 90 {
        (c as u32 + 32) as u32
    } else {
        c as u32
    }
}

/// `a` and `b` are equal up to ASCII case, as `str::eq_ignore_ascii_case` decides.
pub open spec fn eq_ignore_ascii_case(a: Seq<char>, b: Seq<char>) -> bool {
    &&& a.len() == b.len()
    &&& forall|i: int| 0 <= i < a.len() ==> ascii_lower_code(#[trigger] a[i]) == ascii_lower_code(b[i])
}

fn lower_code(c: char) -> (r: u32)
    ensures
        r == ascii_lower_code(c),
{
    let v = c as u32;
    if 65 <= v && v <= 90 {
        v + 32
    } else {
        v
    }
}

/// Whether `a` and `b` are equal up to ASCII case.
pub fn same_ignoring_ascii_case(a: &str, b: &str) -> (r: bool)
    ensures
        r == eq_ignore_ascii_case(a@, b@),
{
    let x = chars_of(a);
    let y = chars_of(b);
    if x.len() != y.len() {
        return false;
    }
    let n = x.len();
    for i in 0..n
        invariant
            x@ == a@,
            y@ == b@,
            n == x@.len(),
            n == y@.len(),
            forall|k: int| 0 <= k < i ==> ascii_lower_code(#[trigger] a@[k]) == ascii_lower_code(b@[k]),
    {
        if lower_code(x[i]) != lower_code(y[i]) {
            return false;
        }
    }
    true
}

/// The decimal digit for `d`, which is below ten.
pub open spec fn digit_char(d: nat) -> char {
    (48 + d) as char
}

/// The decimal representation of `n`, without leading zeros.
pub open spec fn decimal(n: nat) -> Seq<char>
    decreases n,
{
    if n < 10 {
        seq![digit_char(n)]
    } else {
        decimal(n / 10).push(digit_char(n % 10))
    }
}

fn digit_text(d: u64) -> (t: &'static str)
    requires
        d < 10,
    ensures
        t@ == seq![digit_char(d as nat)],
{
    proof {
        reveal_strlit("0");
        reveal_strlit("1");
        reveal_strlit("2");
        reveal_strlit("3");
        reveal_strlit("4");
        reveal_strlit("5");
        reveal_strlit("6");
        reveal_strlit("7");
        reveal_strlit("8");
        reveal_strlit("9");
    }
    let t = if d == 0 {
        "0"
    } else if d == 1 {
        "1"
    } else if d == 2 {
        "2"
    } else if d == 3 {
        "3"
    } else if d == 4 {
        "4"
    } else if d == 5 {
        "5"
    } else if d == 6 {
        "6"
    } else if d == 7 {
        "7"
    } else if d == 8 {
        "8"
    } else {
        "9"
    };
    assert(t@ =~= seq![digit_char(d as nat)]);
    t
}

/// `n` written in decimal.
pub fn decimal_string(n: u64) -> (s: String)
    ensures
        s@ == decimal(n as nat),
    decreases n,
{
    if n < 10 {
        digit_text(n).to_string()
    } else {
        let mut s = decimal_string(n / 10);
        s.append(digit_text(n % 10));
        s
    }
}

/// The characters that count as whitespace are exactly those of the Unicode
/// `White_Space` property, by code point: U+0009 to U+000D, U+0020, U+0085,
/// U+00A0, U+1680, U+2000 to U+200A, U+2028, U+2029, U+202F, U+205F and
/// U+3000. In particular no printable ASCII character but the space is one.
pub proof fn law_white_space_is_unicode_white_space(c: char)
    ensures
        is_white_space(c) <==> {
            let x = c as u32;
            ||| 9 <= x <= 13
            ||| x == 32
            ||| x == 133
            ||| x == 160
            ||| x == 5760
            ||| 8192 <= x <= 8202
            ||| x == 8232
            ||| x == 8233
            ||| x == 8239
            ||| x == 8287
            ||| x == 12288
        },
        0x21 <= (c as u32) <= 0x7e ==> !is_white_space(c),
{
}

/// Trimming keeps a text whole when it starts and ends with a printable ASCII
/// character other than the space: only whitespace is ever removed.
pub proof fn law_trim_keeps_printable_ends(s: Seq<char>)
    requires
        s.len() > 0,
        0x21 <= (s[0] as u32) <= 0x7e,
        0x21 <= (s.last() as u32) <= 0x7e,
    ensures
        trim(s) == s,
{
    law_white_space_is_unicode_white_space(s[0]);
    law_white_space_is_unicode_white_space(s.last());
    assert(trim_start(s) == s);
}

proof fn lemma_trim_start_shape(s: Seq<char>) -> (a: int)
    ensures
        0 <= a <= s.len(),
        trim_start(s) == s.skip(a),
        forall|k: int| 0 <= k < a ==> is_white_space(#[trigger] s[k]),
        a < s.len() ==> !is_white_space(s[a]),
    decreases s.len(),
{
    if s.len() > 0 && is_white_space(s[0]) {
        let b = lemma_trim_start_shape(s.drop_first());
        assert(s.drop_first().skip(b) =~= s.skip(b + 1));
        assert forall|k: int| 0 <= k < b + 1 implies is_white_space(#[trigger] s[k]) by {
            if k > 0 {
                assert(s[k] == s.drop_first()[k - 1]);
            }
        }
        if b + 1 < s.len() {
            assert(s[b + 1] == s.drop_first()[b]);
        }
        b + 1
    } else {
        assert(s.skip(0) =~= s);
        0
    }
}

proof fn lemma_trim_end_shape(s: Seq<char>) -> (b: int)
    ensures
        0 <= b <= s.len(),
        trim_end(s) == s.take(b),
        forall|k: int| b <= k < s.len() ==> is_white_space(#[trigger] s[k]),
        b > 0 ==> !is_white_space(s[b - 1]),
    decreases s.len(),
{
    if s.len() > 0 && is_white_space(s.last()) {
        let b = lemma_trim_end_shape(s.drop_last());
        assert(s.drop_last().take(b) =~= s.take(b));
        assert forall|k: int| b <= k < s.len() implies is_white_space(#[trigger] s[k]) by {
            if k < s.len() - 1 {
                assert(s[k] == s.drop_last()[k]);
            }
        }
        if b > 0 {
            assert(s[b - 1] == s.drop_last()[b - 1]);
        }
        b
    } else {
        assert(s.take(s.len() as int) =~= s);
        s.len() as int
    }
}

/// Trimming removes exactly the whitespace before the first and after the
/// last non-whitespace character: the result is the stretch of the text from
/// its first to its last non-whitespace character (empty when there is none).
pub proof fn law_trim_removes_exactly_surrounding_white_space(s: Seq<char>)
    ensures
        exists|a: int, b: int|
            {
                &&& 0 <= a <= b <= s.len()
                &&& trim(s) == s.subrange(a, b)
                &&& forall|k: int| 0 <= k < a ==> is_white_space(#[trigger] s[k])
                &&& forall|k: int| b <= k < s.len() ==> is_white_space(#[trigger] s[k])
                &&& a < b ==> !is_white_space(s[a]) && !is_white_space(s[b - 1])
            },
{
    let a = lemma_trim_start_shape(s);
    let t = s.skip(a);
    let c = lemma_trim_end_shape(t);
    let b = a + c;
    assert(t.take(c) =~= s.subrange(a, b));
    assert forall|k: int| b <= k < s.len() implies is_white_space(#[trigger] s[k]) by {
        assert(s[k] == t[k - a]);
    }
    if a < b {
        assert(s[a] == t[0]);
        assert(s[b - 1] == t[c - 1]);
        if c == 0 {
            assert(false);
        }
        if a == s.len() {
            assert(false);
        }
    }
    assert(0 <= a <= b <= s.len());
}

proof fn lemma_first_word_shape(s: Seq<char>) -> (ab: (int, int))
    ensures
        words(s).len() == 0 <==> forall|k: int| 0 <= k < s.len() ==> is_white_space(#[trigger] s[k]),
        words(s).len() > 0 ==> {
            let (a, b) = ab;
            &&& 0 <= a < b <= s.len()
            &&& words(s)[0] == s.subrange(a, b)
            &&& forall|k: int| 0 <= k < a ==> is_white_space(#[trigger] s[k])
            &&& forall|k: int| a <= k < b ==> !is_white_space(#[trigger] s[k])
            &&& b == s.len() || is_white_space(s[b])
        },
    decreases s.len(),
{
    if s.len() == 0 {
        (0, 0)
    } else if is_white_space(s[0]) {
        let (a, b) = lemma_first_word_shape(s.drop_first());
        assert forall|k: int| 1 <= k < s.len() implies #[trigger] s[k] == s.drop_first()[k - 1] by {}
        if words(s).len() > 0 {
            assert(s.drop_first().subrange(a, b) =~= s.subrange(a + 1, b + 1));
            assert forall|k: int| 0 <= k < a + 1 implies is_white_space(#[trigger] s[k]) by {
                if k > 0 {
                    assert(s[k] == s.drop_first()[k - 1]);
                }
            }
            assert forall|k: int| a + 1 <= k < b + 1 implies !is_white_space(#[trigger] s[k]) by {
                assert(s[k] == s.drop_first()[k - 1]);
            }
            if b + 1 < s.len() {
                assert(s[b + 1] == s.drop_first()[b]);
            }
        } else {
            assert forall|k: int| 0 <= k < s.len() implies is_white_space(#[trigger] s[k]) by {
                if k > 0 {
                    assert(s[k] == s.drop_first()[k - 1]);
                }
            }
        }
        (a + 1, b + 1)
    } else {
        lemma_word_len_bound(s);
        let n = word_len(s) as int;
        lemma_word_len_shape(s);
        assert(words(s)[0] == s.take(n));
        assert(s.take(n) =~= s.subrange(0, n));
        (0, n)
    }
}

proof fn lemma_word_len_shape(s: Seq<char>)
    ensures
        word_len(s) <= s.len(),
        forall|k: int| 0 <= k < word_len(s) ==> !is_white_space(#[trigger] s[k]),
        word_len(s) == s.len() || is_white_space(s[word_len(s) as int]),
    decreases s.len(),
{
    if s.len() > 0 && !is_white_space(s[0]) {
        lemma_word_len_shape(s.drop_first());
        assert forall|k: int| 0 <= k < word_len(s) implies !is_white_space(#[trigger] s[k]) by {
            if k > 0 {
                assert(s[k] == s.drop_first()[k - 1]);
            }
        }
        if word_len(s) < s.len() {
            assert(s[word_len(s) as int] == s.drop_first()[word_len(s) - 1]);
        }
    }
}

/// A text has no words exactly when it is all whitespace; otherwise its first
/// word is the first maximal stretch of non-whitespace characters: preceded
/// only by whitespace, and followed by whitespace or the end of the text.
pub proof fn law_first_word_is_first_stretch(s: Seq<char>)
    ensures
        words(s).len() == 0 <==> forall|k: int| 0 <= k < s.len() ==> is_white_space(#[trigger] s[k]),
        words(s).len() > 0 ==> exists|a: int, b: int|
            {
                &&& 0 <= a < b <= s.len()
                &&& words(s)[0] == s.subrange(a, b)
                &&& forall|k: int| 0 <= k < a ==> is_white_space(#[trigger] s[k])
                &&& forall|k: int| a <= k < b ==> !is_white_space(#[trigger] s[k])
                &&& (b == s.len() || is_white_space(s[b]))
            },
{
    let (a, b) = lemma_first_word_shape(s);
    if words(s).len() > 0 {
        assert(0 <= a < b <= s.len());
    }
}

/// Lines split at each line feed: a first line `a` with no line feed,
/// followed by a line feed and the rest `b`, gives `a` (without a carriage
/// return that ends it) and then the lines of `b`; a text with no line feed is
/// one line, itself, carriage returns and all.
pub proof fn law_lines_split_at_line_feed(a: Seq<char>, b: Seq<char>)
    requires
        forall|k: int| 0 <= k < a.len() ==> #[trigger] a[k] != '\n',
    ensures
        a.len() > 0 ==> lines(a) == seq![a],
        (a.len() == 0 || a.last() != '\r') ==> lines(a + seq!['\n'] + b) == seq![a] + lines(b),
        (a.len() > 0 && a.last() == '\r') ==> lines(a + seq!['\n'] + b) == seq![a.drop_last()]
            + lines(b),
{
    let s = a + seq!['\n'] + b;
    assert forall|k: int| 0 <= k < a.len() implies #[trigger] s[k] != '\n' by {
        assert(s[k] == a[k]);
    }
    assert(s[a.len() as int] == '\n');
    lemma_line_end_exact(s, a.len() as int);
    assert(s.take(a.len() as int) =~= a);
    assert(s.skip(a.len() as int + 1) =~= b);
    if a.len() > 0 {
        lemma_line_end_exact(a, a.len() as int);
    }
}

} // verus!
