//! Deterministic text-preprocessing and feature-vectorization pipeline for
//! labeled short-message records: loading tab-separated (label, message)
//! lines, normalizing and tokenizing message text, filtering stopwords,
//! building a first-occurrence vocabulary, and encoding bag-of-words
//! feature vectors for an external classifier.

pub mod errors;
pub mod text;
pub mod label;
pub mod records;
pub mod loader;
pub mod stopfilter;
pub mod vocab;
pub mod features;

pub use errors::DataError;
pub use label::Label;
pub use records::{RawData, TokenizedData, RawDataset, Dataset};
pub use vocab::{Vocabulary, bag_of_words};
pub use features::{create_smartcore_input, encode_message};
