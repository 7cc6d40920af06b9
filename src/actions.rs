use vstd::prelude::*;

verus! {

/// One transition of the pipeline, consumed exactly once by some worker.
#[derive(Clone, Debug)]
pub enum Action {
    /// Register the entry file unconditionally.
    EntryAsset(String),
    /// Register a discovered file unless its path is already known.
    CreateAsset(String),
    /// Load the text of the asset with this id.
    ReadContents(usize),
    /// Pick the transformer chain of the asset with this id.
    AssignTransformers(usize),
    /// Run the plugin at the given position of the asset's chain.
    TransformContents(usize, usize),
    /// The asset with this id is finished.
    Done(usize),
}

} // verus!
