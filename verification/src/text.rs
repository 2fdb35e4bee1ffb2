//! Lines as sequences of characters: splitting a line on single spaces and
//! joining it again, telling blank lines and comments, and trimming the `$`
//! of a label reference.

use vstd::prelude::*;

verus! {

/// The views of a sequence of strings.
pub open spec fn views(words: Seq<String>) -> Seq<Seq<char>> {
    words.map_values(|w: String| w@)
}

/// The views of a sequence of lines.
pub open spec fn line_views(lines: Seq<&str>) -> Seq<Seq<char>> {
    lines.map_values(|line: &str| line@)
}

/// The characters of `s`, in order.
pub fn chars_of(s: &str) -> (v: Vec<char>)
    ensures
        v@ == s@,
{
    let mut v: Vec<char> = Vec::new();
    for c in it: s.chars()
        invariant
            it.seq() == s@,
            v@ == s@.take(it.index() as int),
    {
        v.push(c);
    }
    v
}

/// Index of the first space in `s`, or `s.len()` when it holds none.
pub open spec fn first_space(s: Seq<char>) -> int
    decreases s.len(),
{
    if s.len() == 0 || s[0] == ' ' {
        0
    } else {
        1 + first_space(s.drop_first())
    }
}

/// The tokens of `s`: the pieces between its spaces. Every space separates,
/// so two spaces in a row give an empty token and the result is never empty.
pub open spec fn split_spaces(s: Seq<char>) -> Seq<Seq<char>>
    decreases s.len(),
    via split_spaces_decreases
{
    let k = first_space(s);
    if k >= s.len() {
        seq![s]
    } else {
        seq![s.take(k)] + split_spaces(s.skip(k + 1))
    }
}

#[via_fn]
proof fn split_spaces_decreases(s: Seq<char>) {
    lemma_first_space_bounds(s);
}

/// The words joined by single spaces.
pub open spec fn join_spaces(words: Seq<Seq<char>>) -> Seq<char>
    decreases words.len(),
{
    if words.len() == 0 {
        Seq::empty()
    } else if words.len() == 1 {
        words[0]
    } else {
        join_spaces(words.drop_last()) + seq![' '] + words.last()
    }
}

pub proof fn lemma_first_space_bounds(s: Seq<char>)
    ensures
        0 <= first_space(s) <= s.len(),
        first_space(s) < s.len() ==> s[first_space(s)] == ' ',
        forall|i: int| 0 <= i < first_space(s) ==> s[i] != ' ',
    decreases s.len(),
{
    if s.len() == 0 || s[0] == ' ' {
    } else {
        let t = s.drop_first();
        lemma_first_space_bounds(t);
        assert forall|i: int| 0 <= i < first_space(s) implies s[i] != ' ' by {
            if i > 0 {
                assert(s[i] == t[i - 1]);
            }
        }
    }
}

/// `first_space` is the only index with no space before it that is the end
/// of the sequence or holds a space.
pub proof fn lemma_first_space_is(s: Seq<char>, k: int)
    requires
        0 <= k <= s.len(),
        forall|i: int| 0 <= i < k ==> s[i] != ' ',
        k < s.len() ==> s[k] == ' ',
    ensures
        first_space(s) == k,
{
    lemma_first_space_bounds(s);
    let f = first_space(s);
    if f < k {
        assert(s[f] == ' ');
    } else if f > k {
        assert(s[k] != ' ');
    }
}

/// Splitting never gives an empty sequence of tokens, and no token holds a space.
pub proof fn lemma_split_tokens(s: Seq<char>)
    ensures
        split_spaces(s).len() >= 1,
        forall|i: int, j: int|
            0 <= i < split_spaces(s).len() && 0 <= j < split_spaces(s)[i].len()
                ==> split_spaces(s)[i][j] != ' ',
    decreases s.len(),
{
    lemma_first_space_bounds(s);
    let k = first_space(s);
    if k >= s.len() {
    } else {
        lemma_split_tokens(s.skip(k + 1));
    }
}

/// Joining with one more word in front.
pub proof fn lemma_join_prepend(w: Seq<char>, words: Seq<Seq<char>>)
    requires
        words.len() >= 1,
    ensures
        join_spaces(seq![w] + words) == w + seq![' '] + join_spaces(words),
    decreases words.len(),
{
    let all = seq![w] + words;
    assert(all.last() == words.last());
    if words.len() == 1 {
        assert(all.drop_last() =~= seq![w]);
        assert(join_spaces(all.drop_last()) == w);
    } else {
        lemma_join_prepend(w, words.drop_last());
        assert(all.drop_last() =~= seq![w] + words.drop_last());
        assert(w + seq![' '] + join_spaces(words.drop_last()) + seq![' '] + words.last() =~= w
            + seq![' '] + (join_spaces(words.drop_last()) + seq![' '] + words.last()));
    }
}

/// Joining the tokens of a line with single spaces gives the line back.
pub proof fn lemma_join_split(s: Seq<char>)
    ensures
        join_spaces(split_spaces(s)) == s,
    decreases s.len(),
{
    lemma_first_space_bounds(s);
    let k = first_space(s);
    if k >= s.len() {
    } else {
        let rest = s.skip(k + 1);
        lemma_join_split(rest);
        lemma_split_tokens(rest);
        lemma_join_prepend(s.take(k), split_spaces(rest));
        assert(s.take(k) + seq![' '] + rest =~= s);
    }
}

/// Splits `line` on single spaces, as `split_spaces` does.
pub fn split_line(line: &str) -> (toks: Vec<String>)
    ensures
        views(toks@) == split_spaces(line@),
{
    let chars = chars_of(line);
    let n = chars.len();
    let mut toks: Vec<String> = Vec::new();
    let mut start: usize = 0;
    let mut i: usize = 0;
    assert(line@.skip(0) =~= line@);
    assert(views(toks@) + split_spaces(line@) =~= split_spaces(line@));
    while i < n
        invariant
            chars@ == line@,
            n == chars.len(),
            start <= i <= n,
            forall|j: int| start <= j < i ==> chars@[j] != ' ',
            split_spaces(line@) == views(toks@) + split_spaces(line@.skip(start as int)),
        decreases n - i,
    {
        if chars[i] == ' ' {
            let tok = String::from_str(line.substring_char(start, i));
            proof {
                let rest = line@.skip(start as int);
                lemma_first_space_is(rest, i - start);
                assert(rest.take(i - start) =~= tok@);
                assert(rest.skip(i - start + 1) =~= line@.skip(i + 1));
                assert(views(toks@.push(tok)) =~= views(toks@).push(tok@));
                assert(views(toks@).push(tok@) + split_spaces(line@.skip(i + 1)) =~= views(toks@)
                    + (seq![tok@] + split_spaces(line@.skip(i + 1))));
            }
            toks.push(tok);
            start = i + 1;
        }
        i += 1;
    }
    let tok = String::from_str(line.substring_char(start, n));
    proof {
        let rest = line@.skip(start as int);
        lemma_first_space_is(rest, n - start);
        assert(rest =~= tok@);
        assert(views(toks@.push(tok)) =~= views(toks@).push(tok@));
        assert(views(toks@).push(tok@) =~= views(toks@) + seq![tok@]);
    }
    toks.push(tok);
    toks
}

/// White space as Unicode defines it.
pub open spec fn is_space_char(c: char) -> bool {
    ||| '\u{9}' <= c <= '\u{d}'
    ||| c == ' '
    ||| c == '\u{85}'
    ||| c == '\u{a0}'
    ||| c == '\u{1680}'
    ||| '\u{2000}' <= c <= '\u{200a}'
    ||| c == '\u{2028}'
    ||| c == '\u{2029}'
    ||| c == '\u{202f}'
    ||| c == '\u{205f}'
    ||| c == '\u{3000}'
}

/// A line of nothing but white space; the empty line is one.
pub open spec fn is_blank(s: Seq<char>) -> bool {
    forall|i: int| 0 <= i < s.len() ==> is_space_char(#[trigger] s[i])
}

/// A line that starts with the comment marker.
pub open spec fn is_comment(s: Seq<char>) -> bool {
    s.len() > 0 && s[0] == '#'
}

fn space_char(c: char) -> (r: bool)
    ensures
        r == is_space_char(c),
{
    ('\u{9}' <= c && c <= '\u{d}') || c == ' ' || c == '\u{85}' || c == '\u{a0}' || c
        == '\u{1680}' || ('\u{2000}' <= c && c <= '\u{200a}') || c == '\u{2028}' || c
        == '\u{2029}' || c == '\u{202f}' || c == '\u{205f}' || c == '\u{3000}'
}

/// Whether the line is blank or a comment: such a line does nothing.
pub fn is_idle_line(line: &str) -> (r: bool)
    ensures
        r == (is_comment(line@) || is_blank(line@)),
{
    let chars = chars_of(line);
    if chars.len() > 0 && chars[0] == '#' {
        return true;
    }
    let mut i: usize = 0;
    while i < chars.len()
        invariant
            i <= chars.len(),
            chars@ == line@,
            !is_comment(line@),
            forall|j: int| 0 <= j < i ==> is_space_char(#[trigger] chars@[j]),
        decreases chars.len() - i,
    {
        if !space_char(chars[i]) {
            assert(!is_space_char(line@[i as int]));
            return false;
        }
        i += 1;
    }
    true
}

/// How many `$` stand at the start of `s`.
pub open spec fn leading_dollars(s: Seq<char>) -> nat
    decreases s.len(),
{
    if s.len() > 0 && s[0] == '$' {
        1 + leading_dollars(s.drop_first())
    } else {
        0
    }
}

/// How many `$` stand at the end of `s`.
pub open spec fn trailing_dollars(s: Seq<char>) -> nat
    decreases s.len(),
{
    if s.len() > 0 && s.last() == '$' {
        1 + trailing_dollars(s.drop_last())
    } else {
        0
    }
}

/// `s` without the `$` at its start and at its end.
pub open spec fn trim_dollars(s: Seq<char>) -> Seq<char> {
    if leading_dollars(s) >= s.len() {
        Seq::empty()
    } else {
        s.subrange(leading_dollars(s) as int, s.len() - trailing_dollars(s))
    }
}

proof fn lemma_leading_dollars(s: Seq<char>, k: int)
    requires
        0 <= k <= s.len(),
        forall|i: int| 0 <= i < k ==> s[i] == '$',
        k < s.len() ==> s[k] != '$',
    ensures
        leading_dollars(s) == k,
    decreases k,
{
    if k > 0 {
        let t = s.drop_first();
        assert forall|i: int| 0 <= i < k - 1 implies t[i] == '$' by {
            assert(t[i] == s[i + 1]);
        }
        lemma_leading_dollars(t, k - 1);
    }
}

proof fn lemma_trailing_dollars(s: Seq<char>, k: int)
    requires
        0 <= k <= s.len(),
        forall|i: int| s.len() - k <= i < s.len() ==> s[i] == '$',
        k < s.len() ==> s[s.len() - k - 1] != '$',
    ensures
        trailing_dollars(s) == k,
    decreases k,
{
    if k > 0 {
        lemma_trailing_dollars(s.drop_last(), k - 1);
    }
}

/// The name that a `$`-marked token refers to.
pub fn strip_dollars(token: &str) -> (name: String)
    ensures
        name@ == trim_dollars(token@),
{
    let chars = chars_of(token);
    let n = chars.len();
    let mut from: usize = 0;
    while from < n && chars[from] == '$'
        invariant
            from <= n,
            n == chars.len(),
            forall|i: int| 0 <= i < from ==> chars@[i] == '$',
        decreases n - from,
    {
        from += 1;
    }
    proof {
        lemma_leading_dollars(chars@, from as int);
    }
    if from == n {
        return String::new();
    }
    let mut to: usize = n;
    while to > from + 1 && chars[to - 1] == '$'
        invariant
            from < to <= n,
            n == chars.len(),
            chars@[from as int] != '$',
            forall|i: int| to <= i < n ==> chars@[i] == '$',
        decreases to,
    {
        to -= 1;
    }
    proof {
        lemma_trailing_dollars(chars@, n - to);
    }
    String::from_str(token.substring_char(from, to))
}

} // verus!
