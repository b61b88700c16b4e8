//! Reference passages.

use vstd::prelude::*;
use crate::chars::{chars_of, words_in, words_of};

verus! {

/// A passage to type, with where it comes from.
#[derive(Debug, Clone)]
pub struct Text {
    pub content: String,
    pub source: String,
    pub language: String,
    pub category: String,
}

impl Text {
    /// An empty passage with no source, language or category.
    pub fn new() -> (r: Text)
        ensures
            r.content@.len() == 0,
            r.source@.len() == 0,
            r.language@.len() == 0,
            r.category@.len() == 0,
    {
        Text {
            content: String::new(),
            source: String::new(),
            language: String::new(),
            category: String::new(),
        }
    }

    pub fn from_str(content: &str) -> (r: Text)
        ensures
            r.content@ == content@,
            r.source@.len() == 0,
            r.language@.len() == 0,
            r.category@.len() == 0,
    {
        Text {
            content: String::from_str(content),
            source: String::new(),
            language: String::new(),
            category: String::new(),
        }
    }

    pub fn from_str_with_source(content: &str, source: &str) -> (r: Text)
        ensures
            r.content@ == content@,
            r.source@ == source@,
            r.language@.len() == 0,
            r.category@.len() == 0,
    {
        Text {
            content: String::from_str(content),
            source: String::from_str(source),
            language: String::new(),
            category: String::new(),
        }
    }

    pub fn from_str_with_language(content: &str, language: &str) -> (r: Text)
        ensures
            r.content@ == content@,
            r.source@.len() == 0,
            r.language@ == language@,
            r.category@.len() == 0,
    {
        Text {
            content: String::from_str(content),
            source: String::new(),
            language: String::from_str(language),
            category: String::new(),
        }
    }

    pub fn from_str_with_source_and_language(content: &str, source: &str, language: &str) -> (r:
        Text)
        ensures
            r.content@ == content@,
            r.source@ == source@,
            r.language@ == language@,
            r.category@.len() == 0,
    {
        Text {
            content: String::from_str(content),
            source: String::from_str(source),
            language: String::from_str(language),
            category: String::new(),
        }
    }

    pub fn from_all(content: &str, source: &str, language: &str, category: &str) -> (r: Text)
        ensures
            r.content@ == content@,
            r.source@ == source@,
            r.language@ == language@,
            r.category@ == category@,
    {
        Text {
            content: String::from_str(content),
            source: String::from_str(source),
            language: String::from_str(language),
            category: String::from_str(category),
        }
    }

    /// The passage itself.
    pub fn content(&self) -> (r: &str)
        ensures
            r@ == self.content@,
    {
        self.content.as_str()
    }

    /// The whitespace-separated words of the passage, in order.
    pub fn words(&self) -> (r: Vec<String>)
        ensures
            r@.len() == words_of(self.content@).len(),
            forall|k: int| 0 <= k < r@.len() ==> (#[trigger] r@[k])@ == words_of(self.content@)[k],
    {
        let cs = chars_of(self.content.as_str());
        words_in(cs.as_slice())
    }
}

} // verus!
