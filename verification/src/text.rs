//! Conversions between strings and sequences of characters: the lines of a
//! text, and a phrase as words joined by spaces.

use vstd::prelude::*;
use vstd::string::StringExecFns;

verus! {

broadcast use vstd::string::group_string_axioms;

/// The length of the first line of `text`: the position of its first line
/// feed, or the length of `text` where it holds none.
pub open spec fn line_end(text: Seq<char>) -> nat
    decreases text.len(),
{
    if text.len() == 0 || text[0] == '\n' {
        0
    } else {
        1 + line_end(text.drop_first())
    }
}

/// `line` without the carriage return that ends it, if one does.
pub open spec fn trim_cr(line: Seq<char>) -> Seq<char> {
    if line.len() > 0 && line.last() == '\r' {
        line.drop_last()
    } else {
        line
    }
}

/// The lines of `text`. A line ends at a line feed, or at a carriage return
/// directly followed by one; neither belongs to the line. What follows the
/// last line feed is a line of its own unless it is empty.
pub open spec fn lines_of(text: Seq<char>) -> Seq<Seq<char>>
    decreases text.len(),
{
    if text.len() == 0 {
        Seq::empty()
    } else {
        let n = line_end(text) as int;
        if n >= text.len() {
            seq![text]
        } else {
            seq![trim_cr(text.take(n))] + lines_of(text.skip(n + 1))
        }
    }
}

/// The first line feed of `text` is where its first line ends.
pub proof fn lemma_line_end_at(text: Seq<char>, n: int)
    requires
        0 <= n <= text.len(),
        forall|i: int| 0 <= i < n ==> text[i] != '\n',
        n < text.len() ==> text[n] == '\n',
    ensures
        line_end(text) == n,
    decreases n,
{
    if n > 0 {
        let rest = text.drop_first();
        assert forall|i: int| 0 <= i < n - 1 implies rest[i] != '\n' by {
            assert(rest[i] == text[i + 1]);
        }
        lemma_line_end_at(rest, n - 1);
    }
}

/// The characters of `text`, in order.
pub fn chars_of(text: &str) -> (chars: Vec<char>)
    ensures
        chars@ == text@,
{
    let mut chars: Vec<char> = Vec::new();
    for c in it: text.chars()
        invariant
            chars@ == text@.take(it.index() as int),
            it.seq() == text@,
    {
        chars.push(c);
    }
    chars
}

/// Appends one character to a string.
///
/// Calls `String::push`. Trusted: the string afterwards is the string before
/// with `c` at its end.
#[verifier::external_body]
pub(crate) fn push_char(s: &mut String, c: char)
    ensures
        final(s)@ == old(s)@.push(c),
{
    s.push(c)
}

/// The string made of the characters `chars[from..to]`.
pub fn string_of(chars: &Vec<char>, from: usize, to: usize) -> (s: String)
    requires
        from <= to <= chars.len(),
    ensures
        s@ == chars@.subrange(from as int, to as int),
{
    let mut s = String::new();
    let mut i: usize = from;
    while i < to
        invariant
            from <= i <= to <= chars.len(),
            s@ == chars@.subrange(from as int, i as int),
        decreases to - i,
    {
        push_char(&mut s, chars[i]);
        i += 1;
    }
    s
}

/// The lines of `text`, each as a string of its own.
pub fn split_lines(text: &str) -> (lines: Vec<String>)
    ensures
        lines.deep_view() == lines_of(text@),
{
    let chars = chars_of(text);
    let mut lines: Vec<String> = Vec::new();
    let mut start: usize = 0;
    let mut i: usize = 0;
    proof {
        assert(text@.skip(0) == text@);
        assert(lines.deep_view() == Seq::<Seq<char>>::empty());
        assert(Seq::<Seq<char>>::empty() + lines_of(text@) == lines_of(text@));
    }
    while i < chars.len()
        invariant
            chars@ == text@,
            start <= i <= chars.len(),
            forall|k: int| start <= k < i ==> chars@[k] != '\n',
            lines_of(text@) == lines.deep_view() + lines_of(text@.skip(start as int)),
        decreases chars.len() - i,
    {
        if chars[i] == '\n' {
            let end = if i > start && chars[i - 1] == '\r' {
                i - 1
            } else {
                i
            };
            let line = string_of(&chars, start, end);
            proof {
                let rest = text@.skip(start as int);
                let n = i - start;
                assert forall|k: int| 0 <= k < n implies rest[k] != '\n' by {
                    assert(rest[k] == chars@[start + k]);
                }
                assert(rest[n] == '\n');
                lemma_line_end_at(rest, n);
                assert(rest.take(n) == chars@.subrange(start as int, i as int));
                assert(line@ == trim_cr(rest.take(n)));
                assert(rest.skip(n + 1) == text@.skip(i + 1));
                assert(lines.deep_view().push(line@) == lines.deep_view() + seq![line@]);
            }
            let ghost before = lines.deep_view();
            lines.push(line);
            assert(lines.deep_view() == before.push(line@));
            start = i + 1;
        }
        i += 1;
    }
    if start < chars.len() {
        let line = string_of(&chars, start, chars.len());
        proof {
            let rest = text@.skip(start as int);
            assert forall|k: int| 0 <= k < rest.len() implies rest[k] != '\n' by {
                assert(rest[k] == chars@[start + k]);
            }
            lemma_line_end_at(rest, rest.len() as int);
            assert(line@ == rest);
        }
        let ghost before = lines.deep_view();
        lines.push(line);
        assert(lines.deep_view() == before.push(line@));
    } else {
        assert(text@.skip(start as int).len() == 0);
    }
    lines
}

/// The words of a phrase written one after the other with a single space
/// between neighbours.
pub open spec fn joined(words: Seq<Seq<char>>) -> Seq<char>
    decreases words.len(),
{
    if words.len() == 0 {
        Seq::empty()
    } else if words.len() == 1 {
        words[0]
    } else {
        joined(words.drop_last()) + seq![' '] + words.last()
    }
}

/// Joins `words` into one phrase, with a single space between neighbours.
pub fn join_words(words: &Vec<String>) -> (phrase: String)
    ensures
        phrase@ == joined(words.deep_view()),
{
    let mut phrase = String::new();
    let mut i: usize = 0;
    while i < words.len()
        invariant
            i <= words.len(),
            phrase@ == joined(words.deep_view().take(i as int)),
        decreases words.len() - i,
    {
        if i > 0 {
            push_char(&mut phrase, ' ');
        }
        phrase.append(words[i].as_str());
        proof {
            let all = words.deep_view();
            assert(all.take(i + 1).drop_last() == all.take(i as int));
            assert(all.take(i + 1).last() == words@[i as int]@);
        }
        i += 1;
    }
    assert(words.deep_view().take(i as int) == words.deep_view());
    phrase
}

} // verus!
