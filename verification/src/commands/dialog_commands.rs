//! Answers of the file dialogs.
use vstd::prelude::*;

verus! {

/// A text file the user opened: its path and content.
#[derive(Debug)]
pub struct TextFileContent {
    pub file_path: String,
    pub content: String,
}

} // verus!
