//! The readiness rule applied to a status check's output. Each variant is a
//! rule seen in readiness waits over command output: a keyword somewhere in
//! the output, a minimum number of lines that carry one of a set of keywords
//! (pods or nodes reported ready), or output that is blank after trimming
//! (no pod left in a non-ready state).

use vstd::prelude::*;
use crate::text::{all_blank, contains_any_word, contains_word, count_matching, spec_lines};
use crate::text::{at_least_matching_lines, contains_bytes, is_blank};

verus! {

/// A predicate over raw check output deciding "ready".
pub enum ReadyCondition {
    /// The output holds the keyword somewhere.
    OutputContains(Vec<u8>),
    /// At least `threshold` lines of the output hold one of `words`.
    MinMatchingLines { words: Vec<Vec<u8>>, threshold: usize },
    /// The output is empty or whitespace only.
    OutputBlank,
}

impl ReadyCondition {
    /// What the condition means, over the output as a byte sequence.
    pub open spec fn holds_on(self, output: Seq<u8>) -> bool {
        match self {
            ReadyCondition::OutputContains(word) => contains_word(output, word@),
            ReadyCondition::MinMatchingLines { words, threshold } => count_matching(
                spec_lines(output),
                words.deep_view(),
            ) >= threshold,
            ReadyCondition::OutputBlank => all_blank(output),
        }
    }

    /// Evaluate the condition on raw check output.
    pub fn eval(&self, output: &[u8]) -> (r: bool)
        ensures
            r == self.holds_on(output@),
    {
        match self {
            ReadyCondition::OutputContains(word) => contains_bytes(output, word.as_slice()),
            ReadyCondition::MinMatchingLines { words, threshold } => at_least_matching_lines(
                output,
                words,
                *threshold,
            ),
            ReadyCondition::OutputBlank => is_blank(output),
        }
    }
}

} // verus!
