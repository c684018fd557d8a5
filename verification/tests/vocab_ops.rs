use sms_data_clean::{bag_of_words, encode_message, TokenizedData, Vocabulary};

fn row(words: &[&str]) -> TokenizedData {
    TokenizedData { tokens: words.iter().map(|w| w.to_string()).collect() }
}

#[test]
fn vocabulary_indices_follow_first_occurrence() {
    let corpus = vec![row(&["b", "a", "b"]), row(&["c", "a"])];
    let vocab = Vocabulary::from_corpus(&corpus);
    assert_eq!(vocab.words, vec!["b".to_string(), "a".to_string(), "c".to_string()]);
    assert_eq!(vocab.index_of(&"b".to_string()), Some(0));
    assert_eq!(vocab.index_of(&"a".to_string()), Some(1));
    assert_eq!(vocab.index_of(&"c".to_string()), Some(2));
    assert_eq!(vocab.index_of(&"z".to_string()), None);
}

#[test]
fn vocabulary_no_larger_than_token_count_and_keys_unique() {
    let corpus = vec![row(&["a", "b", "a"]), row(&["b", "b"])];
    let vocab = Vocabulary::from_corpus(&corpus);
    assert!(vocab.len() <= 5);
    assert_eq!(vocab.len(), 2);
    let mut sorted = vocab.words.clone();
    sorted.sort();
    sorted.dedup();
    assert_eq!(sorted.len(), vocab.len());
}

#[test]
fn bag_of_words_counts_term_frequency() {
    let vocab = Vocabulary::from_corpus(&vec![row(&["a", "b", "c"])]);
    let counts = bag_of_words(row(&["a", "b", "a", "z"]).tokens, &vocab);
    assert_eq!(counts, vec![2, 1, 0]);
}

#[test]
fn bag_of_words_length_is_vocabulary_size_even_when_empty() {
    let vocab = Vocabulary::from_corpus(&vec![row(&["a", "b", "c"])]);
    assert_eq!(bag_of_words(Vec::new(), &vocab), vec![0, 0, 0]);
    let empty_vocab = Vocabulary::from_corpus(&Vec::new());
    assert!(empty_vocab.is_empty());
    assert_eq!(bag_of_words(row(&["a"]).tokens, &empty_vocab), Vec::<usize>::new());
}

#[test]
fn encode_message_strips_punctuation_but_keeps_case() {
    let vocab = Vocabulary::from_corpus(&vec![row(&["win", "cash"])]);
    assert_eq!(encode_message("win cash!! cash...", &vocab), vec![1, 2]);
    assert_eq!(encode_message("WIN cash", &vocab), vec![0, 1]);
    assert_eq!(encode_message("", &vocab), vec![0, 0]);
}
