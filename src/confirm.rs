//! The confirmation engine: its configuration, the rendered prompt, how one
//! reply is classified, and the retry state machine that the prompt loop runs.
use vstd::prelude::*;
use vstd::string::*;
use crate::answer::{Answer, answer_of, is_full_word, is_full_word_spec, trim_text, trimmed};
use crate::options::{ReaderType, TryMode};

verus! {

/// What one attempt at reading an answer produced.
#[derive(Debug, Copy, Clone, PartialEq, Eq, Structural)]
pub enum Outcome {
    /// A definite answer: `true` for yes, `false` for no.
    Decided(bool),
    /// An empty reply with no default, or an unrecognised word: ask again.
    Retry,
    /// In full-word mode, a reply that is not "yes" or "no": ask again.
    Invalid,
    /// Reading the reply failed: ask again.
    IoFailure,
}

/// Where the prompt loop stands.
#[derive(Debug, Copy, Clone, PartialEq, Eq, Structural)]
pub enum LoopState {
    /// Waiting for the reply to a prompt; holds the retries used so far.
    Prompting(u64),
    /// A definite answer came.
    Accepted(bool),
    /// The bounded retry budget ran out without a definite answer.
    Exhausted,
}

/// The outcome that a configured default gives to an empty reply, or that
/// an answer word gives.
pub open spec fn outcome_of_answer(a: Answer) -> Outcome {
    match a {
        Answer::Yes => Outcome::Decided(true),
        Answer::No => Outcome::Decided(false),
        Answer::Retry => Outcome::Retry,
    }
}

/// The option box shown after the prompt text.
pub open spec fn option_box(full_words: bool, default: Answer) -> Seq<char> {
    if full_words {
        match default {
            Answer::Yes => "[YES/no]"@,
            Answer::No => "[yes/NO]"@,
            Answer::Retry => "[yes/no]"@,
        }
    } else {
        match default {
            Answer::Yes => "[Y/n]"@,
            Answer::No => "[y/N]"@,
            Answer::Retry => "[y/n]"@,
        }
    }
}

/// One step of the prompt loop: a definite answer ends it; anything else
/// asks again, using up one retry under a bounded policy, or ends it as
/// exhausted when no retry is left. Ended states stay as they are.
pub open spec fn next_state(mode: TryMode, state: LoopState, outcome: Outcome) -> LoopState {
    match state {
        LoopState::Prompting(used) => match outcome {
            Outcome::Decided(b) => LoopState::Accepted(b),
            _ => match mode {
                TryMode::Infinite => LoopState::Prompting(used),
                TryMode::Count(n) => if used < n {
                    LoopState::Prompting((used + 1) as u64)
                } else {
                    LoopState::Exhausted
                },
            },
        },
        _ => state,
    }
}

/// The state after the loop has been fed the outcomes in order, one per prompt.
pub open spec fn run(mode: TryMode, state: LoopState, outcomes: Seq<Outcome>) -> LoopState
    decreases outcomes.len(),
{
    if outcomes.len() == 0 {
        state
    } else {
        run(mode, next_state(mode, state, outcomes[0]), outcomes.drop_first())
    }
}

/// Whether the prompt with that outcome gives a definite answer.
pub open spec fn is_decided(o: Outcome) -> bool {
    o is Decided
}

/// The configuration of one confirmation prompt.
#[derive(Debug, Clone)]
pub struct Confirm {
    /// Used for an empty reply; `Retry` means there is no default.
    pub default_response: Answer,
    /// The question, shown unchanged before the option box.
    pub prompt: String,
    pub reader_type: ReaderType,
    pub retry_mode: TryMode,
    /// Require "yes" or "no" in full rather than single letters.
    pub use_full_words: bool,
}

impl LoopState {
    /// The result that the caller acts on: only an accepted yes confirms;
    /// an exhausted budget counts as no.
    pub open spec fn confirmed_spec(self) -> bool {
        self == LoopState::Accepted(true)
    }

    /// The result that the caller acts on: only an accepted yes confirms;
    /// an exhausted budget counts as no.
    pub fn is_confirmed(&self) -> (r: bool)
        ensures
            r == self.confirmed_spec(),
    {
        match self {
            LoopState::Accepted(b) => *b,
            _ => false,
        }
    }
}

impl Confirm {
    pub open spec fn wf(&self) -> bool {
        self.retry_mode.wf()
    }

    /// The outcome of a reply, once trimmed: an empty reply takes the
    /// default; in full-word mode anything but "yes"/"no" is invalid;
    /// otherwise the word is read as an answer.
    pub open spec fn classify_spec(&self, response: Seq<char>) -> Outcome {
        if response.len() == 0 {
            outcome_of_answer(self.default_response)
        } else if self.use_full_words && !is_full_word_spec(response) {
            Outcome::Invalid
        } else {
            outcome_of_answer(answer_of(response))
        }
    }

    /// The full prompt: the text, a space, the option box, a colon and a space.
    pub open spec fn prompt_text(&self) -> Seq<char> {
        self.prompt@ + " "@ + option_box(self.use_full_words, self.default_response) + ": "@
    }

    pub fn new(
        default_response: Answer,
        prompt: String,
        reader_type: ReaderType,
        retry_mode: TryMode,
        use_full_words: bool,
    ) -> (r: Self)
        requires
            retry_mode.wf(),
        ensures
            r.default_response == default_response,
            r.prompt@ == prompt@,
            r.reader_type == reader_type,
            r.retry_mode == retry_mode,
            r.use_full_words == use_full_words,
            r.wf(),
    {
        Self { default_response, reader_type, prompt, use_full_words, retry_mode }
    }

    /// The option box for this configuration, such as `[y/N]`.
    pub fn render_option_box(&self) -> (r: &'static str)
        ensures
            r@ == option_box(self.use_full_words, self.default_response),
    {
        match (self.use_full_words, self.default_response) {
            (true, Answer::Yes) => "[YES/no]",
            (true, Answer::No) => "[yes/NO]",
            (true, Answer::Retry) => "[yes/no]",
            (false, Answer::Yes) => "[Y/n]",
            (false, Answer::No) => "[y/N]",
            (false, Answer::Retry) => "[y/n]",
        }
    }

    /// The prompt to print before each read, such as `Continue? [y/N]: `.
    pub fn prepare_prompt(&self) -> (r: String)
        ensures
            r@ == self.prompt_text(),
    {
        let optionbox = self.render_option_box();
        let mut new = self.prompt.clone();
        new.append(" ");
        new.append(optionbox);
        new.append(": ");
        new
    }

    /// Classifies a reply that has already been trimmed.
    pub fn classify(&self, response: &str) -> (r: Outcome)
        ensures
            r == self.classify_spec(response@),
    {
        if response.unicode_len() == 0 {
            match self.default_response {
                Answer::Yes => Outcome::Decided(true),
                Answer::No => Outcome::Decided(false),
                Answer::Retry => Outcome::Retry,
            }
        } else if self.use_full_words && !is_full_word(response) {
            Outcome::Invalid
        } else {
            match Answer::from_str(response) {
                Answer::Yes => Outcome::Decided(true),
                Answer::No => Outcome::Decided(false),
                Answer::Retry => Outcome::Retry,
            }
        }
    }

    /// Classifies a raw reply as read, line terminator included: it is
    /// trimmed of surrounding whitespace first.
    pub fn evaluate(&self, raw: &str) -> (r: Outcome)
        ensures
            r == self.classify_spec(trimmed(raw@)),
    {
        let response = trim_text(raw);
        self.classify(response)
    }

    /// The state after one prompt whose reply had this outcome.
    pub fn advance(&self, state: LoopState, outcome: Outcome) -> (r: LoopState)
        ensures
            r == next_state(self.retry_mode, state, outcome),
    {
        match state {
            LoopState::Prompting(used) => match outcome {
                Outcome::Decided(b) => LoopState::Accepted(b),
                _ => match self.retry_mode {
                    TryMode::Infinite => LoopState::Prompting(used),
                    TryMode::Count(n) => if used < n {
                        LoopState::Prompting(used + 1)
                    } else {
                        LoopState::Exhausted
                    },
                },
            },
            _ => state,
        }
    }
}

} // verus!
