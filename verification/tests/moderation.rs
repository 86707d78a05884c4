use ad_engine::error::ServiceError;
use ad_engine::moderation::{filter_phrase, levenshtein_distance, AbusiveWord, ModerateTextService};

fn tolerance(word: &str, sensitivity: f32) -> usize {
    (word.len() as f32 * sensitivity).round() as usize
}

fn word_list(words: &[&str], sensitivity: f32) -> Vec<AbusiveWord> {
    words
        .iter()
        .map(|w| AbusiveWord::new(w.to_string(), tolerance(w, sensitivity)))
        .collect()
}

#[test]
fn test_mask_abusive_words() {
    let service = ModerateTextService::new(0.2f32);
    let abusive_words = word_list(&["плохое"], service.sensitivity);

    assert_eq!(
        service.mask_abusive_words("Это не плохое", &abusive_words),
        "Это не ***"
    );
    assert_eq!(
        service.mask_abusive_words("Это не хорошее да да", &abusive_words),
        "Это не хорошее да да"
    );
}

#[test]
fn test_is_abusive_word() {
    let service = ModerateTextService::new(0.3f32);
    let t = tolerance("плохо", service.sensitivity);

    assert!(service.is_abusive_word("плохо", "плохо", t));
    assert!(service.is_abusive_word("плохое", "плохо", t));
    assert!(!service.is_abusive_word("плоховастенький", "плохо", t));
}

#[test]
fn test_hide_abusive_content() {
    let service = ModerateTextService::new(0.2f32);
    let words = word_list(&["плохо"], service.sensitivity);
    let text = vec![
        "Это, не хорошо а пло][о .выспасть".to_string(),
        "Это ю хороше .но не".to_string(),
    ];

    let result = service.hide_abusive_content(&text, true, &words);

    assert_eq!(result, vec!["Это, не хорошо а *** .выспасть", "Это ю хороше .но не"]);
}

#[test]
fn test_check_abusive_content() {
    let service = ModerateTextService::new(0.3f32);
    let words = word_list(&["плохо"], service.sensitivity);
    let text = vec!["Не очнеь плоhо".to_string(), "Хя хя нет п".to_string()];

    let result = service.check_abusive_content(&text, true, &words);

    assert!(result);

    let clean_text = vec!["Хях я нет".to_string()];
    let result_clean = service.check_abusive_content(&clean_text, true, &words);

    assert!(!result_clean);
}

#[test]
fn test_check_abusive_content_disabled() {
    let service = ModerateTextService::new(0.3f32);
    let words = word_list(&["badword"], service.sensitivity);
    let text = vec!["This is a badword".to_string()];

    let result = service.check_abusive_content(&text, false, &words);

    assert!(!result);
}

#[test]
fn hide_abusive_content_disabled_returns_texts_unchanged() {
    let service = ModerateTextService::new(0.3f32);
    let words = word_list(&["плохо"], service.sensitivity);
    let text = vec!["плохо   плохо".to_string(), "h@".to_string()];

    let result = service.hide_abusive_content(&text, false, &words);

    assert_eq!(result, text);
}

#[test]
fn levenshtein_of_ascii_words() {
    assert_eq!(levenshtein_distance("kitten", "sitting"), 3);
    assert_eq!(levenshtein_distance("", "abc"), 3);
    assert_eq!(levenshtein_distance("abc", ""), 3);
    assert_eq!(levenshtein_distance("same", "same"), 0);
}

#[test]
fn levenshtein_counts_cyrillic_over_bytes() {
    // 12 byte slots against 10: two slots must go.
    assert_eq!(levenshtein_distance("плохое", "плохо"), 2);
    // one differing letter
    assert_eq!(levenshtein_distance("плоно", "плохо"), 1);
    // a 2-byte letter against the empty text spans two slots
    assert_eq!(levenshtein_distance("я", ""), 2);
}

#[test]
fn levenshtein_is_symmetric_and_zero_on_itself() {
    let pairs = [("плохо", "хорошо"), ("abc", "абв"), ("", "ё")];
    for (a, b) in pairs {
        assert_eq!(levenshtein_distance(a, b), levenshtein_distance(b, a));
        assert_eq!(levenshtein_distance(a, a), 0);
        assert!(levenshtein_distance(a, b) <= a.len().max(b.len()));
    }
}

#[test]
fn word_is_found_in_itself_with_zero_tolerance() {
    let service = ModerateTextService::new(0.0f32);
    assert!(service.is_abusive_word("слово", "слово", 0));
    assert!(!service.is_abusive_word("", "", 0));
    assert!(!service.is_abusive_word("abc", "abcd", 5));
}

#[test]
fn filter_phrase_folds_look_alikes() {
    assert_eq!(filter_phrase("пло][о"), "плохо");
    // `h` is folded onto `н` before `х` is reached
    assert_eq!(filter_phrase("плоhо"), "плоно");
    assert_eq!(filter_phrase("*"), "ж");
    assert_eq!(filter_phrase("Это, не"), "Это, не");
    // `y` and `a` are folded letter by letter before `ya` is reached
    assert_eq!(filter_phrase("ya"), "уа");
    assert_eq!(filter_phrase("0k"), "ок");
}

#[test]
fn masking_rejoins_words_with_single_spaces() {
    let service = ModerateTextService::new(0.2f32);
    let words = word_list(&["плохое"], service.sensitivity);
    assert_eq!(service.mask_abusive_words("  a \t b\nплохое  ", &words), "a b ***");
    assert_eq!(service.mask_abusive_words("   ", &words), "");
}

#[test]
fn masking_lowercases_before_comparing() {
    let service = ModerateTextService::new(0.2f32);
    let words = word_list(&["плохое"], service.sensitivity);
    assert_eq!(service.mask_abusive_words("ПЛОХОЕ дело", &words), "*** дело");
}

#[test]
fn check_with_empty_list_finds_nothing() {
    let service = ModerateTextService::new(0.3f32);
    let text = vec!["что угодно".to_string()];
    assert!(!service.check_abusive_content(&text, true, &Vec::new()));
}

#[test]
fn masking_keeps_the_punctuation_around_a_word() {
    let service = ModerateTextService::new(0.25f32);
    let words = word_list(&["плохо"], service.sensitivity);
    let text = vec!["Это не хорошо, а пло][о.".to_string()];
    let result = service.hide_abusive_content(&text, true, &words);
    assert_eq!(result, vec!["Это не хорошо, а ***."]);
    assert_eq!(service.mask_abusive_words("(плохо)!", &words), "(***)!");
}

#[test]
fn refusal_names_the_first_abusive_word() {
    let service = ModerateTextService::new(0.3f32);
    let words = word_list(&["плохо"], service.sensitivity);
    let text = vec!["Хях я нет".to_string(), "Не очнеь плоhо совсем плохо".to_string()];
    match service.refuse_abusive_content(&text, true, &words) {
        Err(ServiceError::Censorship(w)) => assert_eq!(w, "плоно"),
        _ => panic!("expected a refusal"),
    }
    assert!(service.refuse_abusive_content(&text, false, &words).is_ok());
    assert!(service.refuse_abusive_content(&vec!["Хях я нет".to_string()], true, &words).is_ok());
}
