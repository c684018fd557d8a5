use smartcore::linalg::basic::arrays::Array;
use sms_data_clean::{create_smartcore_input, DataError, RawDataset};

#[test]
fn two_record_scenario() {
    let text = "ham\tHello, World!!\nspam\tWIN cash NOW!!!";
    let dataset = RawDataset::from_text(text)
        .expect("creation failed")
        .lowercase()
        .without_punctuaction()
        .tokenize()
        .stop_words();
    assert_eq!(dataset.len(), 2);
    assert_eq!(dataset.data[0].tokens, vec!["hello".to_string(), "world".to_string()]);
    assert_eq!(dataset.data[1].tokens, vec!["win".to_string(), "cash".to_string()]);

    let (matrix, labels, vocab) = create_smartcore_input(text).expect("pipeline failed");
    assert_eq!(vocab.len(), 4);
    assert_eq!(vocab.index_of(&"hello".to_string()), Some(0));
    assert_eq!(vocab.index_of(&"world".to_string()), Some(1));
    assert_eq!(vocab.index_of(&"win".to_string()), Some(2));
    assert_eq!(vocab.index_of(&"cash".to_string()), Some(3));
    assert_eq!(matrix.shape(), (2, 4));
    assert_eq!(
        (0..4).map(|c| *matrix.get((0, c))).collect::<Vec<usize>>(),
        vec![1, 1, 0, 0]
    );
    assert_eq!(
        (0..4).map(|c| *matrix.get((1, c))).collect::<Vec<usize>>(),
        vec![0, 0, 1, 1]
    );
    assert_eq!(labels, vec![0, 1]);
}

#[test]
fn punct_and_stopwords_only_message_gives_zero_row() {
    let text = "ham\tWIN cash\nspam\t!!! the ... a, an now !?";
    let dataset = RawDataset::from_text(text)
        .expect("creation failed")
        .lowercase()
        .without_punctuaction()
        .tokenize()
        .stop_words();
    assert_eq!(dataset.data[1].tokens.len(), 0);

    let (matrix, _labels, vocab) = create_smartcore_input(text).expect("pipeline failed");
    assert_eq!(vocab.len(), 2);
    assert_eq!(matrix.shape(), (2, 2));
    assert_eq!(*matrix.get((1, 0)), 0);
    assert_eq!(*matrix.get((1, 1)), 0);
}

#[test]
fn loaded_len_matches_line_count() {
    let text = "ham\tone\nspam\ttwo\nham\tthree";
    let dataset = RawDataset::from_text(text).expect("creation failed");
    assert_eq!(dataset.len(), 3);
    assert!(!dataset.is_empty());
    assert_eq!(dataset.data[2].sms, "three");
}

#[test]
fn trailing_newline_adds_no_record() {
    let dataset = RawDataset::from_text("ham\tone\nspam\ttwo\n").expect("creation failed");
    assert_eq!(dataset.len(), 2);
}

#[test]
fn crlf_line_endings_are_stripped() {
    let dataset = RawDataset::from_text("ham\thi there\r\nspam\twin cash\r\n").expect("creation failed");
    assert_eq!(dataset.len(), 2);
    assert_eq!(dataset.data[0].sms, "hi there");
    assert_eq!(dataset.data[1].sms, "win cash");
}

#[test]
fn missing_delimiter_is_format_error() {
    assert_eq!(RawDataset::from_text("ham no tab here").unwrap_err(), DataError::FormatError);
}

#[test]
fn unknown_label_is_label_error() {
    assert_eq!(RawDataset::from_text("eggs\thello").unwrap_err(), DataError::LabelError);
}

#[test]
fn first_failing_line_wins() {
    let text = "ham\tfine\nno tab at all\neggs\tbad label";
    assert_eq!(RawDataset::from_text(text).unwrap_err(), DataError::FormatError);
}

#[test]
fn empty_source_gives_empty_matrix() {
    let (matrix, labels, vocab) = create_smartcore_input("").expect("pipeline failed");
    assert_eq!(matrix.shape(), (0, 0));
    assert!(labels.is_empty());
    assert!(vocab.is_empty());
}

#[test]
fn all_stopword_corpus_gives_zero_column_matrix() {
    let (matrix, labels, vocab) =
        create_smartcore_input("ham\tthe a an is to").expect("pipeline failed");
    assert_eq!(matrix.shape(), (1, 0));
    assert_eq!(labels, vec![0]);
    assert_eq!(vocab.len(), 0);
}

#[test]
fn repeated_tokens_accumulate_term_frequency() {
    let (matrix, labels, vocab) =
        create_smartcore_input("spam\tcash cash WIN cash").expect("pipeline failed");
    assert_eq!(vocab.index_of(&"cash".to_string()), Some(0));
    assert_eq!(vocab.index_of(&"win".to_string()), Some(1));
    assert_eq!(matrix.shape(), (1, 2));
    assert_eq!(*matrix.get((0, 0)), 3);
    assert_eq!(*matrix.get((0, 1)), 1);
    assert_eq!(labels, vec![1]);
}

#[test]
fn pipeline_is_deterministic_across_runs() {
    let text = "ham\tHello, World!!\nspam\tWIN cash NOW!!!\nham\twin some cash now";
    let (m1, y1, v1) = create_smartcore_input(text).expect("pipeline failed");
    let (m2, y2, v2) = create_smartcore_input(text).expect("pipeline failed");
    assert_eq!(y1, y2);
    assert_eq!(v1.words, v2.words);
    assert_eq!(m1.shape(), m2.shape());
    let (rows, cols) = m1.shape();
    for r in 0..rows {
        for c in 0..cols {
            assert_eq!(*m1.get((r, c)), *m2.get((r, c)));
        }
    }
}
