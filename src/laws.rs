//! Properties of answer classification and of the prompt loop, proved over
//! the models that the engine's contracts use.
use vstd::prelude::*;
use crate::answer::{
    Answer, same_ignoring_case, is_full_word_spec, folded_code, is_white_space, trim_start, trimmed,
};
use crate::options::TryMode;
use crate::confirm::{Confirm, LoopState, Outcome, next_state, run, is_decided};

verus! {

/// Feeding two runs of outcomes one after the other is feeding their concatenation.
pub proof fn lemma_run_append(mode: TryMode, state: LoopState, a: Seq<Outcome>, b: Seq<Outcome>)
    ensures
        run(mode, state, a + b) == run(mode, run(mode, state, a), b),
    decreases a.len(),
{
    if a.len() == 0 {
        assert(a + b =~= b);
    } else {
        assert((a + b).drop_first() =~= a.drop_first() + b);
        lemma_run_append(mode, next_state(mode, state, a[0]), a.drop_first(), b);
    }
}

/// Once the loop has ended, further outcomes change nothing.
pub proof fn lemma_ended_stays(mode: TryMode, state: LoopState, outcomes: Seq<Outcome>)
    requires
        !(state is Prompting),
    ensures
        run(mode, state, outcomes) == state,
    decreases outcomes.len(),
{
    if outcomes.len() > 0 {
        lemma_ended_stays(mode, state, outcomes.drop_first());
    }
}

proof fn lemma_run_step(mode: TryMode, state: LoopState, outcomes: Seq<Outcome>, k: int)
    requires
        0 <= k < outcomes.len(),
    ensures
        run(mode, state, outcomes.take(k + 1)) == next_state(
            mode,
            run(mode, state, outcomes.take(k)),
            outcomes[k],
        ),
{
    assert(outcomes.take(k + 1) =~= outcomes.take(k) + seq![outcomes[k]]);
    lemma_run_append(mode, state, outcomes.take(k), seq![outcomes[k]]);
    let mid = run(mode, state, outcomes.take(k));
    assert(seq![outcomes[k]].drop_first() =~= Seq::<Outcome>::empty());
    assert(run(mode, next_state(mode, mid, outcomes[k]), Seq::<Outcome>::empty()) == next_state(
        mode,
        mid,
        outcomes[k],
    ));
}

/// Without full-word mode, "yes" or "y" in any mixture of case reads as yes,
/// and "no" or "n" in any mixture of case reads as no.
pub proof fn lemma_letter_mode_case_variants(c: Confirm, s: Seq<char>)
    requires
        !c.use_full_words,
    ensures
        same_ignoring_case(s, "yes"@) || same_ignoring_case(s, "y"@) ==> c.classify_spec(s)
            == Outcome::Decided(true),
        same_ignoring_case(s, "no"@) || same_ignoring_case(s, "n"@) ==> c.classify_spec(s)
            == Outcome::Decided(false),
{
    reveal_strlit("yes");
    reveal_strlit("y");
    reveal_strlit("no");
    reveal_strlit("n");
    if same_ignoring_case(s, "y"@) && same_ignoring_case(s, "n"@) {
        assert(folded_code(s[0]) == folded_code("y"@[0]));
        assert(folded_code(s[0]) == folded_code("n"@[0]));
    }
}

/// In full-word mode "yes" and "no" in any mixture of case are accepted,
/// while the single letters "y" and "n" (and any other non-empty text) are
/// invalid.
pub proof fn lemma_full_word_mode(c: Confirm, s: Seq<char>)
    requires
        c.use_full_words,
    ensures
        same_ignoring_case(s, "yes"@) ==> c.classify_spec(s) == Outcome::Decided(true),
        same_ignoring_case(s, "no"@) ==> c.classify_spec(s) == Outcome::Decided(false),
        same_ignoring_case(s, "y"@) || same_ignoring_case(s, "n"@) ==> c.classify_spec(s)
            == Outcome::Invalid,
        s.len() > 0 && !is_full_word_spec(s) ==> c.classify_spec(s) == Outcome::Invalid,
{
    reveal_strlit("yes");
    reveal_strlit("y");
    reveal_strlit("no");
    reveal_strlit("n");
}

/// A reply made only of white space, such as a bare line end, trims to nothing.
pub proof fn lemma_blank_reply_trims_to_empty(raw: Seq<char>)
    requires
        forall|i: int| 0 <= i < raw.len() ==> is_white_space(#[trigger] raw[i]),
    ensures
        trimmed(raw) == Seq::<char>::empty(),
    decreases raw.len(),
{
    if raw.len() > 0 {
        let rest = raw.drop_first();
        assert forall|i: int| 0 <= i < rest.len() implies is_white_space(#[trigger] rest[i]) by {
            assert(rest[i] == raw[i + 1]);
        }
        lemma_blank_reply_trims_to_empty(rest);
        assert(is_white_space(raw[0]));
        assert(trim_start(raw) == trim_start(rest));
    } else {
        assert(raw =~= Seq::<char>::empty());
    }
}

/// With a default of yes, a reply made only of white space (pressing Enter)
/// is read as yes.
pub proof fn lemma_blank_reply_takes_yes_default(c: Confirm, raw: Seq<char>)
    requires
        c.default_response == Answer::Yes,
        forall|i: int| 0 <= i < raw.len() ==> is_white_space(#[trigger] raw[i]),
    ensures
        c.classify_spec(trimmed(raw)) == Outcome::Decided(true),
{
    lemma_blank_reply_trims_to_empty(raw);
}

/// With a default of yes, an empty reply is accepted as yes at once: the
/// prompt that got it is the last one.
pub proof fn lemma_empty_reply_takes_yes_default(c: Confirm, used: u64, later: Seq<Outcome>)
    requires
        c.default_response == Answer::Yes,
    ensures
        c.classify_spec(Seq::empty()) == Outcome::Decided(true),
        run(c.retry_mode, LoopState::Prompting(used), seq![c.classify_spec(Seq::empty())] + later)
            == LoopState::Accepted(true),
{
    let first = seq![c.classify_spec(Seq::empty())];
    lemma_run_append(c.retry_mode, LoopState::Prompting(used), first, later);
    assert(first.drop_first() =~= Seq::<Outcome>::empty());
    assert(run(c.retry_mode, LoopState::Accepted(true), Seq::<Outcome>::empty())
        == LoopState::Accepted(true));
    lemma_ended_stays(c.retry_mode, LoopState::Accepted(true), later);
}

/// With no default, an empty reply to the first prompt leads to another prompt.
pub proof fn lemma_empty_reply_without_default_retries(c: Confirm)
    requires
        c.wf(),
        c.default_response == Answer::Retry,
    ensures
        c.classify_spec(Seq::empty()) == Outcome::Retry,
        next_state(c.retry_mode, LoopState::Prompting(0), c.classify_spec(Seq::empty())) is Prompting,
{
}

/// Under a bound of `n`, `n + 1` prompts without a definite answer use up
/// the budget: each of the first `n` is followed by another prompt, the last
/// one ends the loop as exhausted whatever would come after, and that counts
/// as no.
pub proof fn lemma_bounded_exhausts(n: u64, outcomes: Seq<Outcome>, later: Seq<Outcome>)
    requires
        outcomes.len() == n + 1,
        forall|i: int| 0 <= i < outcomes.len() ==> !is_decided(#[trigger] outcomes[i]),
    ensures
        forall|k: int|
            0 <= k <= n ==> run(TryMode::Count(n), LoopState::Prompting(0), #[trigger] outcomes.take(k))
                == LoopState::Prompting(k as u64),
        run(TryMode::Count(n), LoopState::Prompting(0), outcomes) == LoopState::Exhausted,
        run(TryMode::Count(n), LoopState::Prompting(0), outcomes + later) == LoopState::Exhausted,
        !run(TryMode::Count(n), LoopState::Prompting(0), outcomes).confirmed_spec(),
{
    let mode = TryMode::Count(n);
    let start = LoopState::Prompting(0);
    assert forall|k: int| 0 <= k <= n implies run(mode, start, #[trigger] outcomes.take(k))
        == LoopState::Prompting(k as u64) by {
        lemma_bounded_prefix(n, outcomes, k);
    }
    lemma_run_step(mode, start, outcomes, n as int);
    assert(outcomes.take(n + 1) =~= outcomes);
    lemma_run_append(mode, start, outcomes, later);
    lemma_ended_stays(mode, LoopState::Exhausted, later);
}

proof fn lemma_bounded_prefix(n: u64, outcomes: Seq<Outcome>, k: int)
    requires
        outcomes.len() == n + 1,
        forall|i: int| 0 <= i < outcomes.len() ==> !is_decided(#[trigger] outcomes[i]),
        0 <= k <= n,
    ensures
        run(TryMode::Count(n), LoopState::Prompting(0), outcomes.take(k)) == LoopState::Prompting(
            k as u64,
        ),
    decreases k,
{
    if k == 0 {
        assert(outcomes.take(0) =~= Seq::<Outcome>::empty());
    } else {
        lemma_bounded_prefix(n, outcomes, k - 1);
        lemma_run_step(TryMode::Count(n), LoopState::Prompting(0), outcomes, k - 1);
        assert(!is_decided(outcomes[k - 1]));
    }
}

/// Without a bound the loop never ends as exhausted, whatever the replies.
pub proof fn lemma_unlimited_never_exhausts(used: u64, outcomes: Seq<Outcome>)
    ensures
        run(TryMode::Infinite, LoopState::Prompting(used), outcomes) != LoopState::Exhausted,
    decreases outcomes.len(),
{
    if outcomes.len() > 0 {
        let next = next_state(TryMode::Infinite, LoopState::Prompting(used), outcomes[0]);
        if next is Prompting {
            lemma_unlimited_never_exhausts(used, outcomes.drop_first());
        } else {
            lemma_ended_stays(TryMode::Infinite, next, outcomes.drop_first());
        }
    }
}

/// Without a bound, `N` replies without a definite answer followed by a yes
/// take exactly `N + 1` prompts: each earlier prompt is followed by another,
/// and the last one ends the loop with yes.
pub proof fn lemma_unlimited_answers_after_retries(used: u64, outcomes: Seq<Outcome>)
    requires
        outcomes.len() >= 1,
        forall|i: int| 0 <= i < outcomes.len() - 1 ==> !is_decided(#[trigger] outcomes[i]),
        outcomes.last() == Outcome::Decided(true),
    ensures
        forall|k: int|
            0 <= k < outcomes.len() ==> run(
                TryMode::Infinite,
                LoopState::Prompting(used),
                #[trigger] outcomes.take(k),
            ) == LoopState::Prompting(used),
        run(TryMode::Infinite, LoopState::Prompting(used), outcomes) == LoopState::Accepted(true),
        run(TryMode::Infinite, LoopState::Prompting(used), outcomes).confirmed_spec(),
{
    let mode = TryMode::Infinite;
    let start = LoopState::Prompting(used);
    assert forall|k: int| 0 <= k < outcomes.len() implies run(mode, start, #[trigger] outcomes.take(k))
        == start by {
        lemma_unlimited_prefix(used, outcomes, k);
    }
    let last = outcomes.len() - 1;
    lemma_run_step(mode, start, outcomes, last);
    assert(outcomes.take(last + 1) =~= outcomes);
}

proof fn lemma_unlimited_prefix(used: u64, outcomes: Seq<Outcome>, k: int)
    requires
        forall|i: int| 0 <= i < outcomes.len() - 1 ==> !is_decided(#[trigger] outcomes[i]),
        0 <= k < outcomes.len(),
    ensures
        run(TryMode::Infinite, LoopState::Prompting(used), outcomes.take(k)) == LoopState::Prompting(
            used,
        ),
    decreases k,
{
    if k == 0 {
        assert(outcomes.take(0) =~= Seq::<Outcome>::empty());
    } else {
        lemma_unlimited_prefix(used, outcomes, k - 1);
        lemma_run_step(TryMode::Infinite, LoopState::Prompting(used), outcomes, k - 1);
        assert(!is_decided(outcomes[k - 1]));
    }
}

} // verus!
