use sms_data_clean::{DataError, Label, RawData, RawDataset};

#[test]
fn lowercase_folds_text_and_keeps_label() {
    let record = RawData { label: Label::Spam, sms: "WIN Cash NOW".to_string() };
    let lowered = record.lowercase();
    assert_eq!(lowered.label, Label::Spam);
    assert_eq!(lowered.sms, "win cash now");
}

#[test]
fn without_punctuaction_keeps_whitespace_runs() {
    let record = RawData { label: Label::Ham, sms: "a!b,  c. d?".to_string() };
    let stripped = record.without_punctuaction();
    assert_eq!(stripped.label, Label::Ham);
    assert_eq!(stripped.sms, "ab  c d");
}

#[test]
fn tokenize_splits_on_whitespace_runs_in_order() {
    let dataset = RawDataset {
        data: vec![RawData { label: Label::Ham, sms: " one  two\tthree ".to_string() }],
    };
    let tokenized = dataset.tokenize();
    assert_eq!(tokenized.len(), 1);
    assert_eq!(
        tokenized.data[0].tokens,
        vec!["one".to_string(), "two".to_string(), "three".to_string()]
    );
}

#[test]
fn tokenize_empty_and_all_whitespace_gives_no_tokens() {
    let dataset = RawDataset {
        data: vec![
            RawData { label: Label::Ham, sms: String::new() },
            RawData { label: Label::Spam, sms: " \t  \n ".to_string() },
        ],
    };
    let tokenized = dataset.tokenize();
    assert_eq!(tokenized.len(), 2);
    assert!(tokenized.data[0].tokens.is_empty());
    assert!(tokenized.data[1].tokens.is_empty());
    assert!(!tokenized.is_empty());
}

#[test]
fn stop_words_filters_exact_lowercase_matches_only() {
    let dataset = RawDataset {
        data: vec![RawData { label: Label::Ham, sms: "The the cat is now purring".to_string() }],
    };
    let filtered = dataset.tokenize().stop_words();
    assert_eq!(
        filtered.data[0].tokens,
        vec!["The".to_string(), "cat".to_string(), "purring".to_string()]
    );
    assert_eq!(filtered.labels, vec![Label::Ham]);
}

#[test]
fn label_round_trip() {
    assert_eq!(Label::from_str("ham"), Ok(Label::Ham));
    assert_eq!(Label::from_str("spam"), Ok(Label::Spam));
    assert_eq!(Label::Ham.encode(), 0);
    assert_eq!(Label::Spam.encode(), 1);
    assert_eq!(Label::from_str("eggs"), Err(DataError::LabelError));
    assert_eq!(Label::from_str(""), Err(DataError::LabelError));
    assert_eq!(Label::from_str("hamm"), Err(DataError::LabelError));
    assert_eq!(Label::from_str("Spam"), Err(DataError::LabelError));
}
