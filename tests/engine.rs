use confirm::answer::{is_full_word, trim_text, Answer};
use confirm::confirm::{Confirm, LoopState, Outcome};
use confirm::options::{
    parse_default_answer_opt, parse_retry_count_opt, ConfigError, MainOptions, ReaderType, TryMode,
};

fn engine(default: Answer, full_words: bool, mode: TryMode) -> Confirm {
    Confirm::new(
        default,
        String::from("Continue?"),
        ReaderType::NewlineBuffered,
        mode,
        full_words,
    )
}

#[test]
fn option_box_yes_default_letters() {
    let c = engine(Answer::Yes, false, TryMode::Count(3));
    assert_eq!(c.render_option_box(), "[Y/n]");
}

#[test]
fn option_box_no_default_full_words() {
    let c = engine(Answer::No, true, TryMode::Count(3));
    assert_eq!(c.render_option_box(), "[yes/NO]");
}

#[test]
fn option_box_without_default_letters() {
    let c = engine(Answer::Retry, false, TryMode::Count(3));
    assert_eq!(c.render_option_box(), "[y/n]");
}

#[test]
fn option_box_remaining_cases() {
    assert_eq!(engine(Answer::Yes, true, TryMode::Infinite).render_option_box(), "[YES/no]");
    assert_eq!(engine(Answer::Retry, true, TryMode::Infinite).render_option_box(), "[yes/no]");
    assert_eq!(engine(Answer::No, false, TryMode::Infinite).render_option_box(), "[y/N]");
}

#[test]
fn prompt_with_no_default() {
    let c = engine(Answer::No, false, TryMode::Count(3));
    assert_eq!(c.prepare_prompt(), "Continue? [y/N]: ");
    assert_eq!(c.prompt, "Continue?");
}

#[test]
fn prompt_full_words_custom_text() {
    let c = Confirm::new(
        Answer::Yes,
        String::from("Delete all files?"),
        ReaderType::SingleChar,
        TryMode::Infinite,
        true,
    );
    assert_eq!(c.prepare_prompt(), "Delete all files? [YES/no]: ");
}

#[test]
fn letter_mode_accepts_case_variants() {
    let c = engine(Answer::Retry, false, TryMode::Count(3));
    for w in ["yes", "YES", "Yes", "yEs", "yeS", "y", "Y"] {
        assert_eq!(c.classify(w), Outcome::Decided(true), "{}", w);
    }
    for w in ["no", "NO", "No", "nO", "n", "N"] {
        assert_eq!(c.classify(w), Outcome::Decided(false), "{}", w);
    }
    for w in ["maybe", "yess", "ye", "nope", "x"] {
        assert_eq!(c.classify(w), Outcome::Retry, "{}", w);
    }
}

#[test]
fn full_word_mode_rejects_letters() {
    let c = engine(Answer::Retry, true, TryMode::Count(3));
    assert_eq!(c.classify("y"), Outcome::Invalid);
    assert_eq!(c.classify("n"), Outcome::Invalid);
    assert_eq!(c.classify("Y"), Outcome::Invalid);
    assert_eq!(c.classify("maybe"), Outcome::Invalid);
    assert_eq!(c.classify("yes"), Outcome::Decided(true));
    assert_eq!(c.classify("YeS"), Outcome::Decided(true));
    assert_eq!(c.classify("no"), Outcome::Decided(false));
    assert_eq!(c.classify("NO"), Outcome::Decided(false));
}

#[test]
fn empty_reply_with_yes_default_accepts_at_once() {
    let c = engine(Answer::Yes, false, TryMode::Count(3));
    let o = c.evaluate("\n");
    assert_eq!(o, Outcome::Decided(true));
    let s = c.advance(LoopState::Prompting(0), o);
    assert_eq!(s, LoopState::Accepted(true));
    assert!(s.is_confirmed());
}

#[test]
fn empty_reply_with_no_default_answers_no() {
    let c = engine(Answer::No, true, TryMode::Count(3));
    assert_eq!(c.classify(""), Outcome::Decided(false));
}

#[test]
fn empty_reply_without_default_retries() {
    let c = engine(Answer::Retry, false, TryMode::Count(3));
    let o = c.evaluate("   \n");
    assert_eq!(o, Outcome::Retry);
    assert_eq!(c.advance(LoopState::Prompting(0), o), LoopState::Prompting(1));
    let u = engine(Answer::Retry, false, TryMode::Infinite);
    assert_eq!(u.advance(LoopState::Prompting(0), o), LoopState::Prompting(0));
}

#[test]
fn raw_reply_is_trimmed() {
    let c = engine(Answer::Retry, true, TryMode::Count(3));
    assert_eq!(c.evaluate("  yes\n"), Outcome::Decided(true));
    assert_eq!(c.evaluate("\tNo \r\n"), Outcome::Decided(false));
    assert_eq!(c.evaluate(" y\n"), Outcome::Invalid);
}

#[test]
fn bounded_three_exhausts_after_four_prompts() {
    let c = engine(Answer::Retry, false, TryMode::Count(3));
    let replies = [Outcome::Invalid, Outcome::Retry, Outcome::IoFailure, Outcome::Invalid];
    let mut state = LoopState::Prompting(0);
    let mut prompts: usize = 0;
    for o in replies {
        assert!(matches!(state, LoopState::Prompting(_)));
        prompts += 1;
        state = c.advance(state, o);
    }
    assert_eq!(prompts, 4);
    assert_eq!(state, LoopState::Exhausted);
    assert!(!state.is_confirmed());
    assert_eq!(c.advance(state, Outcome::Decided(true)), LoopState::Exhausted);
}

#[test]
fn bounded_prompt_states_count_retries() {
    let c = engine(Answer::Retry, false, TryMode::Count(3));
    let s1 = c.advance(LoopState::Prompting(0), Outcome::Invalid);
    assert_eq!(s1, LoopState::Prompting(1));
    let s2 = c.advance(s1, Outcome::Retry);
    assert_eq!(s2, LoopState::Prompting(2));
    let s3 = c.advance(s2, Outcome::Decided(false));
    assert_eq!(s3, LoopState::Accepted(false));
    assert!(!s3.is_confirmed());
}

#[test]
fn unlimited_answers_after_many_retries() {
    let c = engine(Answer::Retry, false, TryMode::Infinite);
    let n: usize = 1000;
    let mut state = LoopState::Prompting(0);
    let mut prompts: usize = 0;
    for _ in 0..n {
        prompts += 1;
        state = c.advance(state, Outcome::Invalid);
        assert_ne!(state, LoopState::Exhausted);
        assert_eq!(state, LoopState::Prompting(0));
    }
    prompts += 1;
    state = c.advance(state, c.classify("yes"));
    assert_eq!(prompts, n + 1);
    assert_eq!(state, LoopState::Accepted(true));
    assert!(state.is_confirmed());
}

#[test]
fn answers_from_words() {
    assert_eq!(Answer::from_str("yes"), Answer::Yes);
    assert_eq!(Answer::from_str("Y"), Answer::Yes);
    assert_eq!(Answer::from_str("nO"), Answer::No);
    assert_eq!(Answer::from_str("n"), Answer::No);
    assert_eq!(Answer::from_str(""), Answer::Retry);
    assert_eq!(Answer::from_str("retry"), Answer::Retry);
    assert!(is_full_word("YES"));
    assert!(is_full_word("no"));
    assert!(!is_full_word("y"));
    assert!(!is_full_word("nope"));
}

#[test]
fn default_option_words() {
    assert_eq!(parse_default_answer_opt("yes"), Ok(Answer::Yes));
    assert_eq!(parse_default_answer_opt("NO"), Ok(Answer::No));
    assert_eq!(parse_default_answer_opt("retry"), Ok(Answer::Retry));
    assert_eq!(parse_default_answer_opt("Retry"), Err(ConfigError::InvalidDefault));
    assert_eq!(parse_default_answer_opt("y"), Err(ConfigError::InvalidDefault));
    assert_eq!(parse_default_answer_opt("maybe"), Err(ConfigError::InvalidDefault));
    assert_eq!(parse_default_answer_opt(""), Err(ConfigError::InvalidDefault));
}

#[test]
fn ask_count_option_values() {
    assert_eq!(parse_retry_count_opt("0"), Ok(TryMode::Infinite));
    assert_eq!(parse_retry_count_opt("000"), Ok(TryMode::Infinite));
    assert_eq!(parse_retry_count_opt("3"), Ok(TryMode::Count(3)));
    assert_eq!(parse_retry_count_opt("+7"), Ok(TryMode::Count(7)));
    assert_eq!(parse_retry_count_opt("255"), Ok(TryMode::Count(255)));
    assert_eq!(parse_retry_count_opt("256"), Ok(TryMode::Count(256)));
    assert_eq!(parse_retry_count_opt("1000"), Ok(TryMode::Count(1000)));
    assert_eq!(
        parse_retry_count_opt("18446744073709551615"),
        Ok(TryMode::Count(u64::MAX))
    );
    assert_eq!(parse_retry_count_opt("0042"), Ok(TryMode::Count(42)));
}

#[test]
fn ask_count_option_errors() {
    for s in ["18446744073709551616", "99999999999999999999", "-1", "-0", "", "+", "abc", " 3", "3 ", "1.5", "++1"] {
        assert_eq!(parse_retry_count_opt(s), Err(ConfigError::InvalidCount), "{:?}", s);
        assert_eq!(s.parse::<u64>().is_err(), true, "{:?}", s);
    }
}

#[test]
fn options_into_confirm() {
    let o = MainOptions {
        full_words: true,
        default: Answer::No,
        no_enter: true,
        ask_count: TryMode::Count(2),
        prompt: String::from("Proceed?"),
        always_yes: false,
        always_no: false,
    };
    let c = o.into_confirm();
    assert_eq!(c.default_response, Answer::No);
    assert_eq!(c.prompt, "Proceed?");
    assert_eq!(c.reader_type, ReaderType::SingleChar);
    assert_eq!(c.retry_mode, TryMode::Count(2));
    assert!(c.use_full_words);
    assert_eq!(c.prepare_prompt(), "Proceed? [yes/NO]: ");
}

#[test]
fn trim_removes_surrounding_white_space() {
    assert_eq!(trim_text("  yes\n"), "yes");
    assert_eq!(trim_text("\t\u{3000}no \r\n"), "no");
    assert_eq!(trim_text("\n"), "");
    assert_eq!(trim_text(""), "");
    assert_eq!(trim_text("y e s"), "y e s");
    assert_eq!(trim_text("\u{85}\u{a0}x\u{2029}"), "x");
    for s in ["  a b \n", "\u{2000}\u{200a}q\u{1680}", "\u{200b}z", " \u{205f}\u{202f}"] {
        assert_eq!(trim_text(s), s.trim(), "{:?}", s);
    }
}

#[test]
fn bounded_large_count_keeps_asking() {
    let c = engine(Answer::Retry, false, TryMode::Count(300));
    let mut state = LoopState::Prompting(0);
    for k in 1..=300u64 {
        state = c.advance(state, Outcome::Invalid);
        assert_eq!(state, LoopState::Prompting(k));
    }
    assert_eq!(c.advance(state, Outcome::Retry), LoopState::Exhausted);
}
