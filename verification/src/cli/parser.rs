//! The grammar of a request line: a command name, blanks, and the rest.
//!
//! The name ends at the first white space of any kind. Of the white space
//! behind it only blanks are passed over: space, tab, carriage return and
//! line feed. Other white space belongs to the rest.

use vstd::prelude::*;
use vstd::std_specs::iter::IteratorSpec;
use vstd::string::StrSliceExecFns;

verus! {

/// True for the characters that are passed over between the words of a
/// request line: space, tab, carriage return and line feed.
pub open spec fn is_blank(c: char) -> bool {
    c == ' ' || c == '\t' || c == '\r' || c == '\n'
}

/// True for the characters that end a word: those with the Unicode property
/// `White_Space`.
pub open spec fn is_whitespace(c: char) -> bool {
    ||| '\u{9}' <= c <= '\u{d}'
    ||| c == ' '
    ||| c == '\u{85}'
    ||| c == '\u{a0}'
    ||| c == '\u{1680}'
    ||| '\u{2000}' <= c <= '\u{200a}'
    ||| c == '\u{2028}'
    ||| c == '\u{2029}'
    ||| c == '\u{202f}'
    ||| c == '\u{205f}'
    ||| c == '\u{3000}'
}

/// The index of the first white space at or after `from`, or the length of
/// the line if there is none.
pub open spec fn word_end(line: Seq<char>, from: int) -> int
    decreases line.len() - from,
{
    if 0 <= from < line.len() && !is_whitespace(line[from]) {
        word_end(line, from + 1)
    } else {
        from
    }
}

/// The index of the first character at or after `from` that is no blank, or
/// the length of the line if there is none.
pub open spec fn blanks_end(line: Seq<char>, from: int) -> int
    decreases line.len() - from,
{
    if 0 <= from < line.len() && is_blank(line[from]) {
        blanks_end(line, from + 1)
    } else {
        from
    }
}

/// The first word of a line: everything in front of its first white space.
pub open spec fn first_word(line: Seq<char>) -> Seq<char> {
    line.subrange(0, word_end(line, 0))
}

/// What follows the first word of a line and the blanks behind it.
pub open spec fn after_first_word(line: Seq<char>) -> Seq<char> {
    line.subrange(blanks_end(line, word_end(line, 0)), line.len() as int)
}

/// Every blank is white space.
pub proof fn lemma_blank_is_whitespace(c: char)
    ensures
        is_blank(c) ==> is_whitespace(c),
{
}

/// A word ends within the line, at white space or at the end, and holds no
/// white space.
pub proof fn lemma_word_end(line: Seq<char>, from: int)
    requires
        0 <= from <= line.len(),
    ensures
        from <= word_end(line, from) <= line.len(),
        word_end(line, from) < line.len() ==> is_whitespace(line[word_end(line, from)]),
        forall|i: int| from <= i < word_end(line, from) ==> !is_whitespace(#[trigger] line[i]),
    decreases line.len() - from,
{
    if from < line.len() && !is_whitespace(line[from]) {
        lemma_word_end(line, from + 1);
    }
}

/// A run of blanks ends within the line, at a character that is no blank or
/// at the end, and holds blanks only.
pub proof fn lemma_blanks_end(line: Seq<char>, from: int)
    requires
        0 <= from <= line.len(),
    ensures
        from <= blanks_end(line, from) <= line.len(),
        blanks_end(line, from) < line.len() ==> !is_blank(line[blanks_end(line, from)]),
        forall|i: int| from <= i < blanks_end(line, from) ==> is_blank(#[trigger] line[i]),
    decreases line.len() - from,
{
    if from < line.len() && is_blank(line[from]) {
        lemma_blanks_end(line, from + 1);
    }
}

/// A line is its first word, then a run of blanks, then the rest: nothing is
/// lost, the word is the longest beginning of the line without white space,
/// and the rest does not begin with a blank.
pub proof fn lemma_line_splits(line: Seq<char>)
    ensures
        ({
            let stop = word_end(line, 0);
            let resume = blanks_end(line, stop);
            &&& 0 <= stop <= resume <= line.len()
            &&& line == first_word(line) + line.subrange(stop, resume) + after_first_word(line)
            &&& forall|i: int| 0 <= i < first_word(line).len() ==> !is_whitespace(
                #[trigger] first_word(line)[i],
            )
            &&& stop < line.len() ==> is_whitespace(line[stop])
            &&& forall|i: int| stop <= i < resume ==> is_blank(#[trigger] line[i])
            &&& after_first_word(line).len() > 0 ==> !is_blank(after_first_word(line)[0])
        }),
{
    lemma_word_end(line, 0);
    lemma_blanks_end(line, word_end(line, 0));
}

/// True for the characters that are passed over between the words of a
/// request line.
pub fn is_blank_char(c: char) -> (blank: bool)
    ensures
        blank == is_blank(c),
{
    c == ' ' || c == '\t' || c == '\r' || c == '\n'
}

/// True for the characters that end a word.
pub fn is_whitespace_char(c: char) -> (white: bool)
    ensures
        white == is_whitespace(c),
{
    (c >= '\u{9}' && c <= '\u{d}') || c == ' ' || c == '\u{85}' || c == '\u{a0}' || c
        == '\u{1680}' || (c >= '\u{2000}' && c <= '\u{200a}') || c == '\u{2028}' || c
        == '\u{2029}' || c == '\u{202f}' || c == '\u{205f}' || c == '\u{3000}'
}

/// Splits a line into its first word and what follows the blanks behind it.
/// Returns the rest first and the word second. Every line splits: the word
/// is empty where the line is empty or begins with white space.
pub fn parse_command(input: &str) -> (parts: (&str, &str))
    ensures
        parts.0@ == after_first_word(input@),
        parts.1@ == first_word(input@),
{
    let total = input.unicode_len();
    let mut chars = input.chars();
    // The characters read so far, and where the word and the blanks end.
    let mut seen: usize = 0;
    let mut stop: usize = 0;
    let mut in_word = true;
    let mut done = false;
    while seen < total && !done
        invariant
            0 <= stop <= seen <= total,
            total == input@.len(),
            chars.remaining() == input@.subrange(seen as int, total as int),
            in_word ==> stop == seen && !done,
            in_word ==> word_end(input@, 0) == word_end(input@, seen as int),
            !in_word ==> stop == word_end(input@, 0),
            !in_word ==> blanks_end(input@, stop as int) == blanks_end(
                input@,
                if done {
                    seen - 1
                } else {
                    seen as int
                },
            ),
            !in_word ==> stop < seen,
            done ==> !is_blank(input@[seen - 1]) && seen - 1 >= stop,
        decreases total - seen + (if done { 0int } else { 1int }),
    {
        let next = chars.next();
        assert(next is Some);
        if let Some(c) = next {
            let blank = is_blank_char(c);
            if in_word {
                if is_whitespace_char(c) {
                    in_word = false;
                    done = !blank;
                } else {
                    stop = stop + 1;
                }
            } else if !blank {
                done = true;
            }
            seen = seen + 1;
        }
    }
    let resume = if done {
        seen - 1
    } else {
        seen
    };
    proof {
        lemma_word_end(input@, 0);
    }
    (input.substring_char(resume, total), input.substring_char(0, stop))
}

} // verus!
