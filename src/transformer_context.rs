use crate::actions::Action;
use crate::log_level::LogLevel;
use crate::queue::Queue;
use vstd::prelude::*;

verus! {

/// What a plugin sees of the pipeline while it runs: the log level, and a
/// queue that collects the dependencies it discovers.
pub struct TransformerContext {
    pub queue: Queue<Action>,
    pub log_level: LogLevel,
}

impl TransformerContext {
    /// A context with no discovered dependencies yet.
    pub fn new(log_level: LogLevel) -> (r: Self)
        ensures
            r.queue@.len() == 0,
            r.log_level == log_level,
    {
        TransformerContext { queue: Queue::new(), log_level }
    }

    pub fn get_log_level(&self) -> (r: LogLevel)
        ensures
            r == self.log_level,
    {
        self.log_level
    }

    /// Records that the asset being transformed depends on `file_path`.
    pub fn add_dependency(&mut self, file_path: String)
        ensures
            final(self).queue@ == old(self).queue@.push(Action::CreateAsset(file_path)),
            final(self).log_level == old(self).log_level,
    {
        self.queue.push(Action::CreateAsset(file_path))
    }
}

} // verus!
