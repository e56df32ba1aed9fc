//! Answers and the case-insensitive matching of the words that give them.
use vstd::prelude::*;
use vstd::string::*;

verus! {

/// The result of reading one answer word: a definite yes or no, or "ask again".
#[derive(Debug, Copy, Clone, PartialEq, Eq, Structural)]
pub enum Answer {
    Yes,
    No,
    Retry,
}

/// The code of a character with ASCII upper-case letters mapped to lower case.
pub open spec fn folded_code(c: char) -> u32 {
    let v = c as u32;
    if 65 <= v && v <= 90 {
        (v + 32) as u32
    } else {
        v
    }
}

/// Two texts are equal once ASCII letters are compared without regard to case.
pub open spec fn same_ignoring_case(a: Seq<char>, b: Seq<char>) -> bool {
    &&& a.len() == b.len()
    &&& forall|i: int| 0 <= i < a.len() ==> #[trigger] folded_code(a[i]) == folded_code(b[i])
}

/// The text is "yes" or "no", in any mixture of case.
pub open spec fn is_full_word_spec(s: Seq<char>) -> bool {
    same_ignoring_case(s, "yes"@) || same_ignoring_case(s, "no"@)
}

/// What a word means: "yes" or "y" is yes, "no" or "n" is no (any case),
/// anything else asks again.
pub open spec fn answer_of(s: Seq<char>) -> Answer {
    if same_ignoring_case(s, "yes"@) || same_ignoring_case(s, "y"@) {
        Answer::Yes
    } else if same_ignoring_case(s, "no"@) || same_ignoring_case(s, "n"@) {
        Answer::No
    } else {
        Answer::Retry
    }
}

fn folded(c: char) -> (r: u32)
    ensures
        r == folded_code(c),
{
    let v = c as u32;
    if 65 <= v && v <= 90 {
        v + 32
    } else {
        v
    }
}

/// Compares two texts character by character, either exactly or with ASCII
/// letters folded to lower case.
pub(crate) fn text_matches(s: &str, w: &str, ignore_case: bool) -> (r: bool)
    ensures
        ignore_case ==> r == same_ignoring_case(s@, w@),
        !ignore_case ==> r == (s@ == w@),
{
    let n = s.unicode_len();
    let m = w.unicode_len();
    if n != m {
        return false;
    }
    let mut i: usize = 0;
    while i < n
        invariant
            n == s@.len(),
            m == w@.len(),
            n == m,
            i <= n,
            forall|j: int|
                0 <= j < i ==> #[trigger] folded_code(s@[j]) == folded_code(w@[j]),
            !ignore_case ==> forall|j: int| 0 <= j < i ==> #[trigger] s@[j] == w@[j],
        decreases n - i,
    {
        let a = s.get_char(i);
        let b = w.get_char(i);
        if ignore_case {
            if folded(a) != folded(b) {
                return false;
            }
        } else if a != b {
            return false;
        }
        i += 1;
    }
    proof {
        if !ignore_case {
            assert(s@ =~= w@);
        }
    }
    true
}

/// True when `s` is "yes" or "no", in any case.
pub fn is_full_word(s: &str) -> (r: bool)
    ensures
        r == is_full_word_spec(s@),
{
    text_matches(s, "yes", true) || text_matches(s, "no", true)
}

impl Answer {
    /// Reads a word as an answer: "yes"/"y" and "no"/"n" in any case,
    /// `Retry` for everything else.
    pub fn from_str(s: &str) -> (r: Answer)
        ensures
            r == answer_of(s@),
    {
        if text_matches(s, "yes", true) || text_matches(s, "y", true) {
            Answer::Yes
        } else if text_matches(s, "no", true) || text_matches(s, "n", true) {
            Answer::No
        } else {
            Answer::Retry
        }
    }
}

/// A Unicode `White_Space` character, the set that `str::trim` removes.
pub open spec fn is_white_space(c: char) -> bool {
    let v = c as u32;
    ||| 0x09 <= v && v <= 0x0D
    ||| v == 0x20
    ||| v == 0x85
    ||| v == 0xA0
    ||| v == 0x1680
    ||| 0x2000 <= v && v <= 0x200A
    ||| v == 0x2028
    ||| v == 0x2029
    ||| v == 0x202F
    ||| v == 0x205F
    ||| v == 0x3000
}

/// The text without its leading white space.
pub open spec fn trim_start(s: Seq<char>) -> Seq<char>
    decreases s.len(),
{
    if s.len() > 0 && is_white_space(s[0]) {
        trim_start(s.drop_first())
    } else {
        s
    }
}

/// The text without its trailing white space.
pub open spec fn trim_end(s: Seq<char>) -> Seq<char>
    decreases s.len(),
{
    if s.len() > 0 && is_white_space(s.last()) {
        trim_end(s.drop_last())
    } else {
        s
    }
}

/// The text without leading and trailing white space.
pub open spec fn trimmed(s: Seq<char>) -> Seq<char> {
    trim_end(trim_start(s))
}

fn white_space(c: char) -> (r: bool)
    ensures
        r == is_white_space(c),
{
    let v = c as u32;
    (0x09 <= v && v <= 0x0D) || v == 0x20 || v == 0x85 || v == 0xA0 || v == 0x1680 || (0x2000
        <= v && v <= 0x200A) || v == 0x2028 || v == 0x2029 || v == 0x202F || v == 0x205F || v
        == 0x3000
}

/// Removes leading and trailing white space, as a reply is read.
pub fn trim_text(s: &str) -> (r: &str)
    ensures
        r@ == trimmed(s@),
{
    let n = s.unicode_len();
    let mut start: usize = 0;
    assert(s@.subrange(0, n as int) =~= s@);
    while start < n && white_space(s.get_char(start))
        invariant
            n == s@.len(),
            start <= n,
            trim_start(s@) == trim_start(s@.subrange(start as int, n as int)),
        decreases n - start,
    {
        assert(s@.subrange(start as int, n as int).drop_first() =~= s@.subrange(
            start as int + 1,
            n as int,
        ));
        start += 1;
    }
    assert(trim_start(s@) == s@.subrange(start as int, n as int));
    let ghost front = s@.subrange(start as int, n as int);
    let mut end: usize = n;
    while end > start && white_space(s.get_char(end - 1))
        invariant
            n == s@.len(),
            start <= end <= n,
            front == s@.subrange(start as int, n as int),
            trim_end(front) == trim_end(s@.subrange(start as int, end as int)),
        decreases end - start,
    {
        assert(s@.subrange(start as int, end as int).drop_last() =~= s@.subrange(
            start as int,
            end as int - 1,
        ));
        end -= 1;
    }
    assert(trim_end(front) == s@.subrange(start as int, end as int));
    s.substring_char(start, end)
}

} // verus!
