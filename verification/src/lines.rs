//! Lines of a text.
use vstd::prelude::*;

use crate::text::{chars_of, string_of};

verus! {

/// Where the first line feed of `s` is; its length if there is none.
pub open spec fn first_newline(s: Seq<char>) -> nat
    decreases s.len(),
{
    if s.len() == 0 || s[0] == '\n' {
        0
    } else {
        1 + first_newline(s.drop_first())
    }
}

/// A line without the carriage return that may precede its line feed.
pub open spec fn without_cr(line: Seq<char>) -> Seq<char> {
    if line.len() > 0 && line.last() == '\r' {
        line.drop_last()
    } else {
        line
    }
}

/// The lines of a text. A line ends with a line feed, which a carriage return may precede;
/// neither belongs to the line. The last line need not be ended.
pub open spec fn lines(s: Seq<char>) -> Seq<Seq<char>>
    decreases s.len(),
{
    let n = first_newline(s) as int;
    if s.len() == 0 {
        seq![]
    } else if n >= s.len() {
        seq![s]
    } else {
        seq![without_cr(s.take(n))] + lines(s.skip(n + 1))
    }
}

/// The text of some lines, each ended with a line feed.
pub open spec fn unlines(lines: Seq<Seq<char>>) -> Seq<char>
    decreases lines.len(),
{
    if lines.len() == 0 {
        seq![]
    } else {
        unlines(lines.drop_last()) + lines.last().push('\n')
    }
}

/// Whether a text has no line feed.
pub open spec fn is_one_line(s: Seq<char>) -> bool {
    forall|i: int| 0 <= i < s.len() ==> s[i] != '\n'
}

proof fn lemma_first_newline(s: Seq<char>, n: nat)
    requires
        n <= s.len(),
        forall|i: int| 0 <= i < n ==> s[i] != '\n',
        n < s.len() ==> s[n as int] == '\n',
    ensures
        first_newline(s) == n,
    decreases n,
{
    if n > 0 {
        lemma_first_newline(s.drop_first(), (n - 1) as nat);
    }
}

proof fn lemma_before_first_newline(s: Seq<char>)
    ensures
        first_newline(s) <= s.len(),
        forall|i: int| 0 <= i < first_newline(s) ==> s[i] != '\n',
    decreases s.len(),
{
    if s.len() > 0 && s[0] != '\n' {
        lemma_before_first_newline(s.drop_first());
        assert forall|i: int| 0 <= i < first_newline(s) implies s[i] != '\n' by {
            if i > 0 {
                assert(s.drop_first()[i - 1] == s[i]);
            }
        }
    }
}

/// No line of a text holds a line feed.
pub proof fn law_lines_are_lines(s: Seq<char>)
    ensures
        forall|i: int| 0 <= i < lines(s).len() ==> is_one_line(#[trigger] lines(s)[i]),
    decreases s.len(),
{
    let n = first_newline(s) as int;
    lemma_before_first_newline(s);
    if s.len() > 0 && n < s.len() {
        let rest = lines(s.skip(n + 1));
        law_lines_are_lines(s.skip(n + 1));
        assert forall|i: int| 0 <= i < lines(s).len() implies is_one_line(
            #[trigger] lines(s)[i],
        ) by {
            if i > 0 {
                assert(lines(s)[i] == rest[i - 1]);
            }
        }
    }
}

proof fn lemma_unlines_front(ls: Seq<Seq<char>>)
    requires
        ls.len() > 0,
    ensures
        unlines(ls) == ls[0].push('\n') + unlines(ls.drop_first()),
    decreases ls.len(),
{
    if ls.len() == 1 {
        assert(unlines(ls.drop_last()) =~= seq![]);
        assert(unlines(ls.drop_first()) =~= seq![]);
        assert(unlines(ls) =~= ls[0].push('\n') + unlines(ls.drop_first()));
    } else {
        lemma_unlines_front(ls.drop_last());
        assert(ls.drop_last().drop_first() =~= ls.drop_first().drop_last());
        assert(ls.drop_first().last() == ls.last());
        assert(unlines(ls) =~= ls[0].push('\n') + unlines(ls.drop_first()));
    }
}

/// Writing lines and reading them again gives the same lines, but for a carriage return at the
/// end of one.
pub proof fn law_lines_of_unlines(ls: Seq<Seq<char>>)
    requires
        forall|i: int| 0 <= i < ls.len() ==> is_one_line(#[trigger] ls[i]),
    ensures
        lines(unlines(ls)) == ls.map_values(|l: Seq<char>| without_cr(l)),
    decreases ls.len(),
{
    let mapped = ls.map_values(|l: Seq<char>| without_cr(l));
    if ls.len() == 0 {
        assert(lines(unlines(ls)) =~= mapped);
    } else {
        let rest = ls.drop_first();
        let s = unlines(ls);
        lemma_unlines_front(ls);
        let n = ls[0].len();
        assert(is_one_line(ls[0]));
        assert forall|i: int| 0 <= i < n implies s[i] != '\n' by {
            assert(s[i] == ls[0][i]);
        }
        lemma_first_newline(s, n);
        assert(s.take(n as int) =~= ls[0]);
        assert(s.skip(n as int + 1) =~= unlines(rest));
        assert forall|i: int| 0 <= i < rest.len() implies is_one_line(#[trigger] rest[i]) by {
            assert(rest[i] == ls[i + 1]);
        }
        law_lines_of_unlines(rest);
        assert(lines(s) =~= mapped);
    }
}

/// Strings as sequences of characters.
pub open spec fn strings_view(s: Seq<String>) -> Seq<Seq<char>> {
    s.map_values(|s: String| s@)
}

/// The lines of a text.
pub fn split_lines(text: &str) -> (r: Vec<String>)
    ensures
        strings_view(r@) == lines(text@),
{
    let chars = chars_of(text);
    let mut out: Vec<String> = Vec::new();
    let mut start: usize = 0;
    assert(chars@.skip(0) =~= chars@);
    assert(strings_view(out@) + lines(chars@) =~= lines(chars@));
    while start < chars.len()
        invariant
            start <= chars@.len(),
            chars@ == text@,
            strings_view(out@) + lines(chars@.skip(start as int)) == lines(text@),
        decreases chars@.len() - start,
    {
        let ghost s = chars@.skip(start as int);
        let mut end: usize = start;
        while end < chars.len() && chars[end] != '\n'
            invariant
                start <= end <= chars@.len(),
                forall|i: int| start <= i < end ==> chars@[i] != '\n',
            decreases chars@.len() - end,
        {
            end += 1;
        }
        proof {
            lemma_first_newline(s, (end - start) as nat);
        }
        let ghost before = strings_view(out@);
        if end == chars.len() {
            let line = string_of(&chars[start..end]);
            assert(line@ =~= s);
            out.push(line);
            assert(strings_view(out@) =~= before.push(line@));
            assert(chars@.skip(end as int) =~= seq![]);
            start = end;
        } else {
            let mut stop: usize = end;
            if end > start && chars[end - 1] == '\r' {
                stop = end - 1;
            }
            let line = string_of(&chars[start..stop]);
            assert(s.take((end - start) as int) =~= chars@.subrange(start as int, end as int));
            assert(line@ =~= without_cr(s.take((end - start) as int)));
            out.push(line);
            assert(strings_view(out@) =~= before.push(line@));
            assert(s.skip(end - start + 1) =~= chars@.skip(end + 1));
            start = end + 1;
        }
        assert(strings_view(out@) + lines(chars@.skip(start as int)) =~= before + lines(s));
    }
    assert(lines(chars@.skip(start as int)) =~= seq![]);
    assert(strings_view(out@) + lines(chars@.skip(start as int)) =~= strings_view(out@));
    out
}

/// A text is cut at its line feeds: what precedes the first is a line, without a carriage return
/// at its end, and the other lines are those of the rest. A text without a line feed is one line
/// as it stands, and an empty text has none.
pub proof fn law_text_is_cut_at_line_feeds(line: Seq<char>, rest: Seq<char>)
    requires
        forall|i: int| 0 <= i < line.len() ==> line[i] != '\n',
    ensures
        lines(line.push('\n') + rest) == seq![
            if line.len() > 0 && line[line.len() - 1] == '\r' {
                line.take(line.len() - 1)
            } else {
                line
            },
        ] + lines(rest),
        line.len() > 0 ==> lines(line) == seq![line],
        lines(Seq::empty()).len() == 0,
{
    let s = line.push('\n') + rest;
    let n = line.len();
    assert forall|i: int| 0 <= i < n implies s[i] != '\n' by {
        assert(s[i] == line[i]);
    }
    lemma_first_newline(s, n);
    lemma_first_newline(line, n);
    assert(s.take(n as int) =~= line);
    assert(s.skip(n as int + 1) =~= rest);
    if n > 0 {
        assert(line.drop_last() =~= line.take(line.len() - 1));
    }
}

/// Lines are written one after another, each with a line feed after it and nothing else.
pub proof fn law_each_line_is_ended(ls: Seq<Seq<char>>, line: Seq<char>)
    ensures
        unlines(ls.push(line)) == unlines(ls) + line + seq!['\n'],
        unlines(Seq::empty()).len() == 0,
{
    assert(ls.push(line).drop_last() =~= ls);
    assert(unlines(ls.push(line)) =~= unlines(ls) + line + seq!['\n']);
}

/// The view of some strings has the characters of each in its place.
pub proof fn law_strings_in_place(s: Seq<String>, i: int)
    requires
        0 <= i < s.len(),
    ensures
        strings_view(s).len() == s.len(),
        strings_view(s)[i] == s[i]@,
{
}

} // verus!
