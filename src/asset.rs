use vstd::prelude::*;

verus! {

/// One discovered file as it moves through the pipeline.
pub struct Asset {
    /// Canonical path of the file.
    pub file_path: String,
    /// The registry pattern whose chain transforms this file; empty until assigned.
    pub transformer_pattern: String,
    /// The file's text, rewritten in place by the chain's plugins.
    pub content: String,
    /// Reserved for a content-addressed cache; never filled in.
    pub content_hash: String,
}

impl Asset {
    /// A freshly discovered file: only its path is known.
    pub fn new(file_path: String) -> (r: Asset)
        ensures
            r.file_path@ == file_path@,
            r.transformer_pattern@.len() == 0,
            r.content@.len() == 0,
            r.content_hash@.len() == 0,
    {
        Asset {
            file_path,
            transformer_pattern: String::new(),
            content: String::new(),
            content_hash: String::new(),
        }
    }
}

} // verus!
