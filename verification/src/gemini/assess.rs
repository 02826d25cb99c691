//! The integer part of assessing a Gemini answer: whether it finished,
//! whether it is empty, and how many of its characters are replacement
//! characters. The thresholds that turn these counts into a verdict are
//! floating-point settings and are applied by the caller, which hands the
//! verdict back as an [`Assessment`].
use vstd::prelude::*;

use crate::text::{chars_eq_str, chars_of, trim, trim_bounds};

verus! {

/// The replacement character U+FFFD.
pub open spec fn is_replacement(c: char) -> bool {
    c == '\u{FFFD}'
}

/// How many characters of `s` are U+FFFD.
pub open spec fn count_replacements(s: Seq<char>) -> nat
    decreases s.len(),
{
    if s.len() == 0 {
        0
    } else {
        count_replacements(s.drop_last()) + if is_replacement(s.last()) {
            1nat
        } else {
            0nat
        }
    }
}

/// What an answer's shape says before any threshold is applied.
#[derive(Debug, Clone, PartialEq, Eq)]
pub enum Measure {
    /// The finish reason is not `STOP`: truncated, blocked or incomplete.
    NotStopped(String),
    /// The trimmed output is empty.
    Empty,
    /// The output's length in characters and its number of U+FFFD.
    Counted { chars: usize, replacements: usize },
}

/// The plain value of a [`Measure`].
pub enum MeasureView {
    NotStopped(Seq<char>),
    Empty,
    Counted(nat, nat),
}

impl View for Measure {
    type V = MeasureView;

    open spec fn view(&self) -> MeasureView {
        match self {
            Measure::NotStopped(f) => MeasureView::NotStopped(f@),
            Measure::Empty => MeasureView::Empty,
            Measure::Counted { chars, replacements } => MeasureView::Counted(
                *chars as nat,
                *replacements as nat,
            ),
        }
    }
}

/// The shape of an answer: the finish reason is checked first, then
/// emptiness, then the characters are counted.
pub open spec fn spec_measure(markdown: Seq<char>, finish_reason: Seq<char>) -> MeasureView {
    if finish_reason != "STOP"@ {
        MeasureView::NotStopped(finish_reason)
    } else if trim(markdown).len() == 0 {
        MeasureView::Empty
    } else {
        MeasureView::Counted(markdown.len(), count_replacements(markdown))
    }
}

/// Measures an answer `markdown` that finished with `finish_reason`.
pub fn measure(markdown: &str, finish_reason: &str) -> (r: Measure)
    ensures
        r@ == spec_measure(markdown@, finish_reason@),
{
    let reason = chars_of(finish_reason);
    if !chars_eq_str(reason.as_slice(), "STOP") {
        return Measure::NotStopped(finish_reason.to_owned());
    }
    let text = chars_of(markdown);
    let (a, b) = trim_bounds(text.as_slice());
    if a == b {
        return Measure::Empty;
    }
    let mut replacements: usize = 0;
    let mut i: usize = 0;
    while i < text.len()
        invariant
            i <= text@.len(),
            replacements == count_replacements(text@.subrange(0, i as int)),
            replacements <= i,
        decreases text@.len() - i,
    {
        proof {
            let s = text@.subrange(0, i as int + 1);
            assert(s.drop_last() =~= text@.subrange(0, i as int));
        }
        if text[i] == '\u{FFFD}' {
            replacements += 1;
        }
        i += 1;
    }
    assert(text@.subrange(0, text@.len() as int) =~= text@);
    Measure::Counted { chars: text.len(), replacements }
}

/// Why an answer was judged insufficient.
#[derive(Debug, Clone, Copy, PartialEq, Eq, Structural)]
pub enum ReasonKind {
    /// The finish reason is not `STOP`.
    NotStopped,
    /// The trimmed output is empty.
    Empty,
    /// Too many U+FFFD replacement characters.
    Garbled,
    /// Too few output characters per KB of PDF. Not on its own reliable
    /// evidence of a bad extraction: a large PDF made mostly of images can
    /// hold little text and still be read completely.
    LowDensity,
}

/// Whether a reason is on its own reliable evidence of a bad extraction:
/// every reason but a low density.
pub open spec fn reliable_failure(kind: ReasonKind) -> bool {
    kind != ReasonKind::LowDensity
}

impl ReasonKind {
    /// Whether the reason is on its own reliable evidence of a bad
    /// extraction.
    pub fn is_reliable_failure(self) -> (r: bool)
        ensures
            r == reliable_failure(self),
    {
        match self {
            ReasonKind::LowDensity => false,
            _ => true,
        }
    }
}

/// The verdict on one Gemini answer.
#[derive(Debug, Clone)]
pub enum Assessment {
    /// The answer is good enough.
    Sufficient,
    /// The answer is inadequate, for a reason of kind `kind`; `reason` is
    /// its human-readable form.
    Insufficient { kind: ReasonKind, reason: String },
}

/// The plain value of an [`Assessment`].
pub enum AssessmentView {
    Sufficient,
    Insufficient(ReasonKind, Seq<char>),
}

impl View for Assessment {
    type V = AssessmentView;

    open spec fn view(&self) -> AssessmentView {
        match self {
            Assessment::Sufficient => AssessmentView::Sufficient,
            Assessment::Insufficient { kind, reason } => AssessmentView::Insufficient(
                *kind,
                reason@,
            ),
        }
    }
}

impl Assessment {
    /// Whether the assessment says the answer is good enough.
    pub fn is_sufficient(&self) -> (r: bool)
        ensures
            r == (self@ is Sufficient),
    {
        match self {
            Assessment::Sufficient => true,
            Assessment::Insufficient { .. } => false,
        }
    }

    /// A copy of the assessment.
    pub fn duplicate(&self) -> (r: Self)
        ensures
            r@ == self@,
    {
        match self {
            Assessment::Sufficient => Assessment::Sufficient,
            Assessment::Insufficient { kind, reason } => Assessment::Insufficient {
                kind: *kind,
                reason: reason.clone(),
            },
        }
    }
}

} // verus!
