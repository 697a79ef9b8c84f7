//! Parsing of interactive yes/no answers and prompt formatting.
//!
//! The interactive loop itself reads from a terminal and lives outside the
//! library; it feeds each line it reads through `parse_answer` and repeats
//! the question until an answer is accepted.

use vstd::prelude::*;

use crate::strutil::{trim_str, trimmed};

verus! {

/// What a line of input means: after trimming surrounding whitespace,
/// exactly "y" or "n", case-insensitively, is accepted; everything else
/// does not consume a decision.
pub open spec fn answer_of(s: Seq<char>) -> Option<bool> {
    let t = trimmed(s);
    if t == seq!['y'] || t == seq!['Y'] {
        Some(true)
    } else if t == seq!['n'] || t == seq!['N'] {
        Some(false)
    } else {
        None
    }
}

/// Parses one line of input as a yes/no answer.
pub fn parse_answer(input: &str) -> (r: Option<bool>)
    ensures
        r == answer_of(input@),
{
    let t = trim_str(input);
    let ts = t.as_str();
    if ts.unicode_len() == 1 {
        let c = ts.get_char(0);
        proof {
            assert(t@ =~= seq![t@[0]]);
            assert(seq![c][0] == c);
        }
        if c == 'y' || c == 'Y' {
            Some(true)
        } else if c == 'n' || c == 'N' {
            Some(false)
        } else {
            proof {
                assert(t@ != seq!['y'] && t@ != seq!['Y'] && t@ != seq!['n'] && t@ != seq!['N']);
            }
            None
        }
    } else {
        proof {
            assert(t@.len() != 1);
        }
        None
    }
}

/// The line shown when a question is asked.
pub open spec fn prompt_of(question: Seq<char>) -> Seq<char> {
    question + " (y/n): "@
}

/// Formats the prompt for a question.
pub fn format_prompt(question: &str) -> (r: String)
    ensures
        r@ == prompt_of(question@),
{
    let mut r = question.to_owned();
    r.append(" (y/n): ");
    r
}

} // verus!
