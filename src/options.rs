//! Command-line option values: the retry policy, the reader mode, and the
//! parsers for the `--default` and `--ask-count` arguments.
use vstd::prelude::*;
use vstd::string::*;
use crate::answer::{Answer, answer_of, is_full_word, is_full_word_spec};
use crate::confirm::Confirm;

verus! {

/// How input is captured: one raw keystroke, or a whole line.
#[derive(Debug, Copy, Clone, PartialEq, Eq, Structural)]
pub enum ReaderType {
    SingleChar,
    NewlineBuffered,
}

/// How many times to ask again after the first prompt.
#[derive(Debug, Copy, Clone, PartialEq, Eq, Structural)]
pub enum TryMode {
    /// Ask until a definite answer comes.
    Infinite,
    /// Ask at most this many more times (at least one).
    Count(u64),
}

impl TryMode {
    /// A bounded policy has a bound of at least one.
    pub open spec fn wf(self) -> bool {
        match self {
            TryMode::Infinite => true,
            TryMode::Count(n) => n >= 1,
        }
    }
}

/// A malformed command-line argument.
#[derive(Debug, Copy, Clone, PartialEq, Eq, Structural)]
pub enum ConfigError {
    /// `--default` was not "yes", "no" or "retry".
    InvalidDefault,
    /// `--ask-count` was not a non-negative decimal integer that fits in 64 bits.
    InvalidCount,
}

/// Accepted default words: "yes" or "no" in any case, or exactly "retry".
pub open spec fn default_word_ok(s: Seq<char>) -> bool {
    is_full_word_spec(s) || s == "retry"@
}

/// Parses the `--default` argument.
pub fn parse_default_answer_opt(s: &str) -> (r: Result<Answer, ConfigError>)
    ensures
        default_word_ok(s@) ==> r == Ok::<Answer, ConfigError>(answer_of(s@)),
        !default_word_ok(s@) ==> r == Err::<Answer, ConfigError>(ConfigError::InvalidDefault),
{
    if !is_full_word(s) && !crate::answer::text_matches(s, "retry", false) {
        Err(ConfigError::InvalidDefault)
    } else {
        Ok(Answer::from_str(s))
    }
}

pub open spec fn is_digit(c: char) -> bool {
    '0' <= c && c <= '9'
}

/// The value of a string of decimal digits, most significant first.
pub open spec fn digits_value(s: Seq<char>) -> int
    decreases s.len(),
{
    if s.len() == 0 {
        0
    } else {
        digits_value(s.drop_last()) * 10 + (s.last() as int - '0' as int)
    }
}

/// The digits of an unsigned number, after an optional leading '+'.
pub open spec fn unsigned_digits(s: Seq<char>) -> Seq<char> {
    if s.len() > 0 && s[0] == '+' {
        s.drop_first()
    } else {
        s
    }
}

/// The text is a decimal number that fits in a `u64`: an optional '+' and
/// one or more digits whose value is at most `u64::MAX`.
pub open spec fn is_count_text(s: Seq<char>) -> bool {
    &&& all_digits(unsigned_digits(s))
    &&& digits_value(unsigned_digits(s)) <= u64::MAX
}

/// One or more characters, each a decimal digit.
pub open spec fn all_digits(d: Seq<char>) -> bool {
    &&& d.len() > 0
    &&& forall|i: int| 0 <= i < d.len() ==> is_digit(#[trigger] d[i])
}

/// The policy that an `--ask-count` of `n` selects: zero means no bound.
pub open spec fn mode_of_count(n: int) -> TryMode {
    if n == 0 {
        TryMode::Infinite
    } else {
        TryMode::Count(n as u64)
    }
}

proof fn lemma_digits_value_grows(s: Seq<char>, k: int)
    requires
        0 <= k <= s.len(),
        forall|i: int| 0 <= i < s.len() ==> is_digit(#[trigger] s[i]),
    ensures
        0 <= digits_value(s.subrange(0, k)) <= digits_value(s),
    decreases s.len() - k,
{
    if k < s.len() {
        lemma_digits_value_grows(s, k + 1);
        let t = s.subrange(0, k + 1);
        assert(t.drop_last() =~= s.subrange(0, k));
        assert(is_digit(t.last()));
    } else {
        assert(s.subrange(0, k) =~= s);
        lemma_digits_value_nonneg(s);
    }
}

proof fn lemma_digits_value_nonneg(s: Seq<char>)
    requires
        forall|i: int| 0 <= i < s.len() ==> is_digit(#[trigger] s[i]),
    ensures
        digits_value(s) >= 0,
    decreases s.len(),
{
    if s.len() > 0 {
        let t = s.drop_last();
        assert forall|i: int| 0 <= i < t.len() implies is_digit(#[trigger] t[i]) by {
            assert(t[i] == s[i]);
        }
        lemma_digits_value_nonneg(t);
        assert(is_digit(s[s.len() - 1]));
    }
}

/// Parses the `--ask-count` argument: a non-negative integer, where 0 means
/// asking until answered and `n` means `n` more prompts after the first.
pub fn parse_retry_count_opt(s: &str) -> (r: Result<TryMode, ConfigError>)
    ensures
        is_count_text(s@) ==> r == Ok::<TryMode, ConfigError>(
            mode_of_count(digits_value(unsigned_digits(s@))),
        ),
        !is_count_text(s@) ==> r == Err::<TryMode, ConfigError>(ConfigError::InvalidCount),
        r matches Ok(m) ==> m.wf(),
{
    let n = s.unicode_len();
    let ghost d = unsigned_digits(s@);
    let mut start: usize = 0;
    if n > 0 && s.get_char(0) == '+' {
        start = 1;
    }
    assert(d =~= s@.subrange(start as int, n as int));
    if start >= n {
        return Err(ConfigError::InvalidCount);
    }
    let mut value: u128 = 0;
    let mut i: usize = start;
    while i < n
        invariant
            n == s@.len(),
            start <= i <= n,
            d =~= s@.subrange(start as int, n as int),
            d == unsigned_digits(s@),
            forall|j: int| 0 <= j < i - start ==> is_digit(#[trigger] d[j]),
            value as int == digits_value(d.subrange(0, i - start)),
            value <= u64::MAX,
        decreases n - i,
    {
        let c = s.get_char(i);
        if !('0' <= c && c <= '9') {
            assert(d[i - start] == c);
            assert(!is_digit(d[i - start]));
            assert(!is_count_text(s@));
            return Err(ConfigError::InvalidCount);
        }
        let ghost k = i - start;
        assert(d.subrange(0, k + 1).drop_last() =~= d.subrange(0, k));
        assert(d[k] == c);
        assert(digits_value(d.subrange(0, k + 1)) == value * 10 + (c as int - '0' as int));
        let next = value * 10 + (c as u32 - '0' as u32) as u128;
        i += 1;
        if next > u64::MAX as u128 {
            proof {
                if forall|j: int| 0 <= j < d.len() ==> is_digit(#[trigger] d[j]) {
                    lemma_digits_value_grows(d, k + 1);
                }
                assert(!is_count_text(s@));
            }
            return Err(ConfigError::InvalidCount);
        }
        value = next;
    }
    assert(d.subrange(0, n - start) =~= d);
    if value == 0 {
        Ok(TryMode::Infinite)
    } else {
        Ok(TryMode::Count(value as u64))
    }
}

/// The parsed command line.
pub struct MainOptions {
    /// Require explicit "yes" or "no", not single letters.
    pub full_words: bool,
    /// The answer an empty reply gives; `Retry` for none.
    pub default: Answer,
    /// Read one keystroke instead of a line.
    pub no_enter: bool,
    /// How many more times to ask after the first prompt.
    pub ask_count: TryMode,
    /// The question to display.
    pub prompt: String,
    /// Ask nothing and succeed.
    pub always_yes: bool,
    /// Ask nothing and fail.
    pub always_no: bool,
}

impl MainOptions {
    /// The prompt configuration that these options select.
    pub fn into_confirm(self) -> (r: Confirm)
        requires
            self.ask_count.wf(),
        ensures
            r.default_response == self.default,
            r.prompt@ == self.prompt@,
            r.reader_type == (if self.no_enter {
                ReaderType::SingleChar
            } else {
                ReaderType::NewlineBuffered
            }),
            r.retry_mode == self.ask_count,
            r.use_full_words == self.full_words,
            r.wf(),
    {
        let reader_type = match self.no_enter {
            true => ReaderType::SingleChar,
            false => ReaderType::NewlineBuffered,
        };
        Confirm::new(self.default, self.prompt, reader_type, self.ask_count, self.full_words)
    }
}

} // verus!
