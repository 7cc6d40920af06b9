use vstd::prelude::*;

verus! {

/// What a plugin reports after running on an asset.
#[derive(Clone, Debug)]
pub enum TransformerResult {
    /// Go on with the next plugin of the chain.
    Continue,
    /// Stop the chain here; the asset is finished.
    Break,
    /// The plugin failed; the whole run aborts with this message.
    Error(String),
}

impl TransformerResult {
    /// True for a failure.
    pub fn is_err(&self) -> (r: bool)
        ensures
            r == (*self is Error),
    {
        match self {
            TransformerResult::Error(_) => true,
            _ => false,
        }
    }

    /// The failure's message.
    pub fn err(&self) -> (r: String)
        requires
            *self is Error,
        ensures
            r@ == self->Error_0@,
    {
        match self {
            TransformerResult::Error(e) => e.clone(),
            _ => String::new(),
        }
    }
}

} // verus!
