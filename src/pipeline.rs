use crate::actions::Action;
use crate::asset::Asset;
use crate::container::{ContainerEntry, StaticContainer};
use crate::dedup::{index_contains, index_entries, index_insert, index_new, DedupMap};
use crate::hash::{hash_path_buff_sha_256, path_digest};
use crate::paths::file_name;
use crate::plugins::Plugin;
use crate::transformer_container::{first_match, TransformerContainer};
use crate::transformer_context::TransformerContext;
use crate::transformer_result::TransformerResult;
use vstd::prelude::*;

verus! {

/// Why a run aborts.
#[derive(Clone, Debug)]
pub enum PipelineError {
    /// Every slot of the asset store is taken.
    ArenaFull,
    /// An action names an asset id that was never handed out.
    UnknownAsset(usize),
    /// `Done` arrived twice for the same asset.
    AlreadyDone(usize),
    /// No registered pattern matches the asset's file name.
    NoTransformer(usize),
    /// A plugin failed with this message.
    PluginFailed(String),
}

/// The keys after one discovery of `key`: a new key is appended, a known one
/// changes nothing.
pub open spec fn discover(keys: Seq<Seq<char>>, key: Seq<char>) -> Seq<Seq<char>> {
    if keys.contains(key) {
        keys
    } else {
        keys.push(key)
    }
}

/// The keys after discovering each of `found` in turn.
pub open spec fn discover_all(keys: Seq<Seq<char>>, found: Seq<Seq<char>>) -> Seq<Seq<char>>
    decreases found.len(),
{
    if found.len() == 0 {
        keys
    } else {
        discover_all(discover(keys, found[0]), found.drop_first())
    }
}

/// Number of `false` entries.
pub open spec fn count_unfinished(finished: Seq<bool>) -> nat
    decreases finished.len(),
{
    if finished.len() == 0 {
        0
    } else {
        count_unfinished(finished.drop_last()) + if finished.last() {
            0nat
        } else {
            1nat
        }
    }
}

/// What follows a plugin's run at position `index` of a chain of
/// `chain_len` plugins: the next plugin after `Continue` while one is left,
/// else `Done`; `None` when the plugin failed and the run aborts.
pub open spec fn after_plugin(
    id: usize,
    index: usize,
    chain_len: nat,
    outcome: TransformerResult,
) -> Option<Action> {
    match outcome {
        TransformerResult::Continue => if index + 1 < chain_len {
            Some(Action::TransformContents(id, (index + 1) as usize))
        } else {
            Some(Action::Done(id))
        },
        TransformerResult::Break => Some(Action::Done(id)),
        TransformerResult::Error(_) => None,
    }
}

/// The shared state of one run: the work queue, the asset store, the dedup
/// index and the in-flight count.
///
/// An asset enters the count when it is created and leaves it at `Done`.
/// The run is over only when the count is zero and no action is pending: a
/// `CreateAsset` still waiting in the queue keeps the run open, so a worker
/// never stops while a discovered file is yet to be registered.
pub struct Pipeline {
    queue: crate::queue::Queue<Action>,
    assets: StaticContainer<Asset>,
    index: DedupMap,
    in_flight: usize,
    finished: Vec<bool>,
    keys: Ghost<Seq<Seq<char>>>,
}

impl Pipeline {
    /// The pending actions, oldest first.
    pub closed spec fn actions(&self) -> Seq<Action> {
        self.queue@
    }

    /// The assets created so far, by id.
    pub closed spec fn assets(&self) -> Seq<Asset> {
        self.assets@
    }

    /// The dedup key of each created asset, by id.
    pub closed spec fn keys(&self) -> Seq<Seq<char>> {
        self.keys@
    }

    /// Whether `Done` has been processed for each created asset, by id.
    pub closed spec fn finished(&self) -> Seq<bool> {
        self.finished@
    }

    /// The in-flight count.
    pub closed spec fn in_flight(&self) -> nat {
        self.in_flight as nat
    }

    /// The dedup index's entries.
    pub closed spec fn entries(&self) -> Map<Seq<char>, usize> {
        index_entries(self.index)
    }

    /// The number of asset slots.
    pub closed spec fn capacity(&self) -> nat {
        self.assets.spec_capacity()
    }

    pub closed spec fn wf(&self) -> bool {
        &&& self.assets.wf()
        &&& self.keys@.len() == self.assets@.len()
        &&& self.finished@.len() == self.assets@.len()
        &&& forall|i: int| 0 <= i < self.keys@.len() ==> #[trigger] self.keys@[i] == path_digest(
            self.assets@[i].file_path@,
        )
        &&& forall|k: Seq<char>| #[trigger] index_entries(self.index).contains_key(k) <==> self.keys@.contains(k)
        &&& forall|i: int| 0 <= i < self.keys@.len() ==> #[trigger] index_entries(self.index)[self.keys@[i]] == i
        &&& self.in_flight == count_unfinished(self.finished@)
    }

    /// A run whose only pending action registers `entry`, with room for
    /// `capacity` assets.
    pub fn new(capacity: usize, entry: String) -> (r: Self)
        ensures
            r.wf(),
            r.capacity() == capacity,
            r.actions() == seq![Action::EntryAsset(entry)],
            r.assets().len() == 0,
            r.in_flight() == 0,
    {
        let mut queue = crate::queue::Queue::new();
        queue.push(Action::EntryAsset(entry));
        let r = Pipeline {
            queue,
            assets: StaticContainer::new(capacity),
            index: index_new(),
            in_flight: 0,
            finished: Vec::new(),
            keys: Ghost(Seq::empty()),
        };
        assert(r.queue@ =~= seq![Action::EntryAsset(entry)]);
        r
    }

    /// Creates the asset of `file_path` under the dedup key `key`.
    fn register(&mut self, file_path: String, key: String) -> (r: Result<usize, PipelineError>)
        requires
            old(self).wf(),
            key@ == path_digest(file_path@),
            !old(self).keys().contains(key@),
        ensures
            final(self).wf(),
            final(self).capacity() == old(self).capacity(),
            old(self).assets().len() < old(self).capacity() <==> r is Ok,
            r is Err ==> r == Err::<usize, PipelineError>(PipelineError::ArenaFull) && *final(self)
                == *old(self),
            r is Ok ==> {
                &&& r->Ok_0 == old(self).assets().len()
                &&& final(self).keys() == old(self).keys().push(key@)
                &&& final(self).assets().len() == old(self).assets().len() + 1
                &&& final(self).assets().subrange(0, r->Ok_0 as int) == old(self).assets()
                &&& final(self).assets()[r->Ok_0 as int].file_path@ == file_path@
                &&& final(self).assets()[r->Ok_0 as int].transformer_pattern@.len() == 0
                &&& final(self).assets()[r->Ok_0 as int].content@.len() == 0
                &&& final(self).finished() == old(self).finished().push(false)
                &&& final(self).in_flight() == old(self).in_flight() + 1
                &&& final(self).actions() == old(self).actions().push(Action::ReadContents(r->Ok_0))
            },
    {
        if self.assets.len() >= self.assets.capacity() {
            return Err(PipelineError::ArenaFull);
        }
        proof {
            lemma_count_bound(self.finished@);
        }
        let asset = Asset::new(file_path);
        let id = match self.assets.push(asset) {
            Ok(id) => id,
            Err(_) => {
                return Err(PipelineError::ArenaFull);
            },
        };
        let ghost old_keys = self.keys@;
        index_insert(&mut self.index, key, id);
        self.keys = Ghost(self.keys@.push(key@));
        self.finished.push(false);
        assert(self.finished@.drop_last() =~= old(self).finished@);
        self.in_flight = self.in_flight + 1;
        self.queue.push(Action::ReadContents(id));
        proof {
            assert forall|k: Seq<char>| #[trigger] index_entries(self.index).contains_key(k)
                <==> self.keys@.contains(k) by {
                if k == key@ {
                    assert(self.keys@[id as int] == k);
                } else if old_keys.contains(k) {
                    let j = choose|j: int| 0 <= j < old_keys.len() && old_keys[j] == k;
                    assert(self.keys@[j] == k);
                } else if self.keys@.contains(k) {
                    let j = choose|j: int| 0 <= j < self.keys@.len() && self.keys@[j] == k;
                    if j < old_keys.len() {
                        assert(old_keys[j] == k);
                    }
                }
            }
            assert forall|i: int| 0 <= i < self.keys@.len() implies #[trigger] index_entries(
                self.index,
            )[self.keys@[i]] == i by {
                if i < old_keys.len() {
                    assert(old_keys.contains(old_keys[i]));
                }
            }
            assert forall|i: int| 0 <= i < self.keys@.len() implies #[trigger] self.keys@[i]
                == path_digest(self.assets@[i].file_path@) by {
                if i < old_keys.len() {
                    assert(self.assets@[i] == old(self).assets@[i]);
                }
            }
            assert(self.assets@.subrange(0, id as int) =~= old(self).assets@);
        }
        Ok(id)
    }

    /// The asset with id `id`, if it was created.
    pub fn asset(&self, id: usize) -> (r: Option<&Asset>)
        requires
            self.wf(),
        ensures
            id < self.assets().len() ==> r is Some && *r->Some_0 == self.assets()[id as int],
            id >= self.assets().len() ==> r is None,
    {
        proof {
            self.assets.lemma_len_le_capacity();
        }
        if id >= self.assets.len() {
            return None;
        }
        match self.assets.index(id) {
            ContainerEntry::Value(a) => Some(a),
            ContainerEntry::Undefined => None,
        }
    }

    /// Stores the text `content` read for asset `id`, then queues the choice
    /// of its transformer chain.
    pub fn read_contents(&mut self, id: usize, content: String) -> (r: Result<(), PipelineError>)
        requires
            old(self).wf(),
        ensures
            final(self).wf(),
            final(self).capacity() == old(self).capacity(),
            id >= old(self).assets().len() ==> r == Err::<(), PipelineError>(
                PipelineError::UnknownAsset(id),
            ) && *final(self) == *old(self),
            id < old(self).assets().len() ==> {
                &&& r is Ok
                &&& final(self).assets().len() == old(self).assets().len()
                &&& forall|i: int| 0 <= i < old(self).assets().len() && i != id ==> #[trigger] final(self).assets()[i] == old(self).assets()[i]
                &&& final(self).assets()[id as int].content@ == content@
                &&& final(self).assets()[id as int].file_path@ == old(self).assets()[id as int].file_path@
                &&& final(self).assets()[id as int].transformer_pattern@ == old(self).assets()[id as int].transformer_pattern@
                &&& final(self).keys() == old(self).keys()
                &&& final(self).finished() == old(self).finished()
                &&& final(self).in_flight() == old(self).in_flight()
                &&& final(self).actions() == old(self).actions().push(Action::AssignTransformers(id))
            },
    {
        let updated = match self.asset(id) {
            None => {
                return Err(PipelineError::UnknownAsset(id));
            },
            Some(a) => Asset {
                file_path: a.file_path.clone(),
                transformer_pattern: a.transformer_pattern.clone(),
                content,
                content_hash: a.content_hash.clone(),
            },
        };
        self.assets.replace(id, updated);
        self.queue.push(Action::AssignTransformers(id));
        Ok(())
    }

    /// Picks the chain of asset `id`: the first pattern of `registry` that
    /// matches its file name. Then queues the chain's first plugin.
    pub fn assign_transformers(&mut self, id: usize, registry: &TransformerContainer) -> (r: Result<(), PipelineError>)
        requires
            old(self).wf(),
            registry.wf(),
        ensures
            final(self).wf(),
            final(self).capacity() == old(self).capacity(),
            id >= old(self).assets().len() ==> r == Err::<(), PipelineError>(
                PipelineError::UnknownAsset(id),
            ) && *final(self) == *old(self),
            id < old(self).assets().len() && first_match(registry.patterns(), file_name(old(self).assets()[id as int].file_path@)) < 0
                ==> r == Err::<(), PipelineError>(PipelineError::NoTransformer(id)) && *final(self) == *old(self),
            id < old(self).assets().len() && first_match(registry.patterns(), file_name(old(self).assets()[id as int].file_path@)) >= 0 ==> {
                &&& r is Ok
                &&& final(self).assets().len() == old(self).assets().len()
                &&& forall|i: int| 0 <= i < old(self).assets().len() && i != id ==> #[trigger] final(self).assets()[i] == old(self).assets()[i]
                &&& final(self).assets()[id as int].transformer_pattern@ == registry.patterns()[first_match(registry.patterns(), file_name(old(self).assets()[id as int].file_path@))]
                &&& final(self).assets()[id as int].file_path@ == old(self).assets()[id as int].file_path@
                &&& final(self).assets()[id as int].content@ == old(self).assets()[id as int].content@
                &&& final(self).keys() == old(self).keys()
                &&& final(self).finished() == old(self).finished()
                &&& final(self).in_flight() == old(self).in_flight()
                &&& final(self).actions() == old(self).actions().push(Action::TransformContents(id, 0))
            },
    {
        let updated = match self.asset(id) {
            None => {
                return Err(PipelineError::UnknownAsset(id));
            },
            Some(a) => match registry.match_pattern(a.file_path.as_str()) {
                Err(_) => {
                    return Err(PipelineError::NoTransformer(id));
                },
                Ok(pattern) => Asset {
                    file_path: a.file_path.clone(),
                    transformer_pattern: pattern,
                    content: a.content.clone(),
                    content_hash: a.content_hash.clone(),
                },
            },
        };
        self.assets.replace(id, updated);
        self.queue.push(Action::TransformContents(id, 0));
        Ok(())
    }

    /// The plugin at position `index` of the chain of asset `id`. When the
    /// chain has no plugin there, the asset is finished: `Done` is queued and
    /// `None` returned.
    pub fn transform_contents(&mut self, id: usize, index: usize, registry: &TransformerContainer) -> (r: Result<Option<Plugin>, PipelineError>)
        requires
            old(self).wf(),
            registry.wf(),
        ensures
            final(self).wf(),
            final(self).capacity() == old(self).capacity(),
            final(self).assets() == old(self).assets(),
            final(self).keys() == old(self).keys(),
            final(self).finished() == old(self).finished(),
            final(self).in_flight() == old(self).in_flight(),
            id >= old(self).assets().len() ==> r == Err::<Option<Plugin>, PipelineError>(
                PipelineError::UnknownAsset(id),
            ) && final(self).actions() == old(self).actions(),
            id < old(self).assets().len() && index < registry.chain(old(self).assets()[id as int].transformer_pattern@).len()
                ==> r == Ok::<Option<Plugin>, PipelineError>(Some(registry.chain(old(self).assets()[id as int].transformer_pattern@)[index as int]))
                && final(self).actions() == old(self).actions(),
            id < old(self).assets().len() && index >= registry.chain(old(self).assets()[id as int].transformer_pattern@).len()
                ==> r == Ok::<Option<Plugin>, PipelineError>(None)
                && final(self).actions() == old(self).actions().push(Action::Done(id)),
    {
        let plugin = match self.asset(id) {
            None => {
                return Err(PipelineError::UnknownAsset(id));
            },
            Some(a) => match registry.index(a.transformer_pattern.as_str(), index) {
                None => None,
                Some(p) => Some(*p),
            },
        };
        if plugin.is_none() {
            self.queue.push(Action::Done(id));
        }
        Ok(plugin)
    }

    /// Takes in the run of the plugin at position `index` of the chain of
    /// asset `id`: the rewritten text `content`, the dependencies collected
    /// in `ctx`, and the plugin's `outcome`. A failure aborts the run and
    /// changes nothing. Otherwise the text is stored, a `CreateAsset` for
    /// each dependency is queued, then the chain's next plugin, or `Done`.
    pub fn plugin_finished(
        &mut self,
        id: usize,
        index: usize,
        registry: &TransformerContainer,
        ctx: TransformerContext,
        content: String,
        outcome: TransformerResult,
    ) -> (r: Result<(), PipelineError>)
        requires
            old(self).wf(),
            registry.wf(),
        ensures
            final(self).wf(),
            final(self).capacity() == old(self).capacity(),
            final(self).keys() == old(self).keys(),
            final(self).finished() == old(self).finished(),
            final(self).in_flight() == old(self).in_flight(),
            id >= old(self).assets().len() ==> r == Err::<(), PipelineError>(
                PipelineError::UnknownAsset(id),
            ) && *final(self) == *old(self),
            id < old(self).assets().len() && outcome is Error ==> r == Err::<(), PipelineError>(
                PipelineError::PluginFailed(outcome->Error_0),
            ) && *final(self) == *old(self),
            id < old(self).assets().len() && !(outcome is Error) ==> {
                &&& r is Ok
                &&& final(self).assets().len() == old(self).assets().len()
                &&& forall|i: int| 0 <= i < old(self).assets().len() && i != id ==> #[trigger] final(self).assets()[i] == old(self).assets()[i]
                &&& final(self).assets()[id as int].content@ == content@
                &&& final(self).assets()[id as int].file_path@ == old(self).assets()[id as int].file_path@
                &&& final(self).assets()[id as int].transformer_pattern@ == old(self).assets()[id as int].transformer_pattern@
                &&& final(self).actions() == old(self).actions() + ctx.queue@ + seq![after_plugin(
                    id,
                    index,
                    registry.chain(old(self).assets()[id as int].transformer_pattern@).len(),
                    outcome,
                )->Some_0]
            },
    {
        let updated = match self.asset(id) {
            None => {
                return Err(PipelineError::UnknownAsset(id));
            },
            Some(a) => {
                if let TransformerResult::Error(msg) = outcome {
                    return Err(PipelineError::PluginFailed(msg));
                }
                Asset {
                    file_path: a.file_path.clone(),
                    transformer_pattern: a.transformer_pattern.clone(),
                    content,
                    content_hash: a.content_hash.clone(),
                }
            },
        };
        let chain_len = registry.chain_len(updated.transformer_pattern.as_str());
        self.assets.replace(id, updated);
        self.queue.append(ctx.queue);
        let is_break = match outcome {
            TransformerResult::Break => true,
            _ => false,
        };
        if !is_break && index < chain_len && chain_len - index > 1 {
            self.queue.push(Action::TransformContents(id, index + 1));
        } else {
            self.queue.push(Action::Done(id));
        }
        Ok(())
    }

    /// Retires asset `id`: it leaves the in-flight count. A second `Done`
    /// for the same asset is refused.
    pub fn done(&mut self, id: usize) -> (r: Result<(), PipelineError>)
        requires
            old(self).wf(),
        ensures
            final(self).wf(),
            final(self).capacity() == old(self).capacity(),
            final(self).assets() == old(self).assets(),
            final(self).keys() == old(self).keys(),
            final(self).actions() == old(self).actions(),
            id >= old(self).assets().len() ==> r == Err::<(), PipelineError>(
                PipelineError::UnknownAsset(id),
            ) && *final(self) == *old(self),
            id < old(self).assets().len() && old(self).finished()[id as int] ==> r == Err::<(), PipelineError>(
                PipelineError::AlreadyDone(id),
            ) && *final(self) == *old(self),
            id < old(self).assets().len() && !old(self).finished()[id as int] ==> {
                &&& r is Ok
                &&& final(self).finished() == old(self).finished().update(id as int, true)
                &&& final(self).in_flight() + 1 == old(self).in_flight()
            },
    {
        if id >= self.finished.len() {
            return Err(PipelineError::UnknownAsset(id));
        }
        if self.finished[id] {
            return Err(PipelineError::AlreadyDone(id));
        }
        proof {
            lemma_count_finish(self.finished@, id as int);
        }
        self.finished.set(id, true);
        self.in_flight = self.in_flight - 1;
        Ok(())
    }

    /// The in-flight count is the number of created assets not yet done.
    pub proof fn lemma_in_flight_counts_unfinished(&self)
        requires
            self.wf(),
        ensures
            self.in_flight() == count_unfinished(self.finished()),
            self.finished().len() == self.assets().len(),
    {
    }

    /// In every reachable state each dedup key belongs to exactly one asset:
    /// each asset's key is the digest of its path, the keys of created
    /// assets are distinct, and the index maps each of them, and nothing
    /// else, to its asset's id. So two assets never share a path.
    pub proof fn lemma_one_id_per_key(&self)
        requires
            self.wf(),
        ensures
            self.keys().len() == self.assets().len(),
            self.keys().no_duplicates(),
            forall|i: int| 0 <= i < self.keys().len() ==> #[trigger] self.keys()[i] == path_digest(
                self.assets()[i].file_path@,
            ),
            forall|i: int, j: int| 0 <= i < self.assets().len() && 0 <= j < self.assets().len() && i != j
                ==> #[trigger] self.assets()[i].file_path@ != #[trigger] self.assets()[j].file_path@,
            forall|k: Seq<char>| #[trigger] self.entries().contains_key(k) <==> self.keys().contains(k),
            forall|i: int| 0 <= i < self.keys().len() ==> #[trigger] self.entries()[self.keys()[i]] == i,
    {
        assert forall|i: int, j: int| 0 <= i < self.keys@.len() && 0 <= j < self.keys@.len() && i != j implies self.keys@[i] != self.keys@[j] by {
            assert(index_entries(self.index)[self.keys@[i]] == i);
            assert(index_entries(self.index)[self.keys@[j]] == j);
        }
        assert forall|i: int, j: int| 0 <= i < self.assets().len() && 0 <= j < self.assets().len() && i != j
            implies #[trigger] self.assets()[i].file_path@ != #[trigger] self.assets()[j].file_path@ by {
            assert(self.keys@[i] == path_digest(self.assets@[i].file_path@));
            assert(self.keys@[j] == path_digest(self.assets@[j].file_path@));
            assert(self.keys@[i] != self.keys@[j]);
        }
    }

    /// Takes the oldest pending action, if any.
    pub fn next_action(&mut self) -> (r: Option<Action>)
        requires
            old(self).wf(),
        ensures
            final(self).wf(),
            final(self).capacity() == old(self).capacity(),
            final(self).assets() == old(self).assets(),
            final(self).keys() == old(self).keys(),
            final(self).finished() == old(self).finished(),
            final(self).in_flight() == old(self).in_flight(),
            old(self).actions().len() == 0 ==> r is None && final(self).actions() == old(self).actions(),
            old(self).actions().len() > 0 ==> r == Some(old(self).actions()[0])
                && final(self).actions() == old(self).actions().drop_first(),
    {
        self.queue.recv()
    }

    /// Puts `action` behind every pending one.
    pub fn push_action(&mut self, action: Action)
        requires
            old(self).wf(),
        ensures
            final(self).wf(),
            final(self).capacity() == old(self).capacity(),
            final(self).assets() == old(self).assets(),
            final(self).keys() == old(self).keys(),
            final(self).finished() == old(self).finished(),
            final(self).in_flight() == old(self).in_flight(),
            final(self).actions() == old(self).actions().push(action),
    {
        self.queue.push(action)
    }

    /// Whether the run is over: nothing is in flight and nothing is pending.
    pub fn is_complete(&self) -> (r: bool)
        requires
            self.wf(),
        ensures
            r == (self.in_flight() == 0 && self.actions().len() == 0),
    {
        self.in_flight == 0 && self.queue.len() == 0
    }

    /// The in-flight count.
    pub fn in_flight_count(&self) -> (r: usize)
        ensures
            r == self.in_flight(),
    {
        self.in_flight
    }

    /// The number of assets created.
    pub fn asset_count(&self) -> (r: usize)
        requires
            self.wf(),
        ensures
            r == self.assets().len(),
    {
        self.assets.len()
    }

    /// Registers the entry file. It is the first asset, so it needs no
    /// dedup check.
    pub fn entry_asset(&mut self, file_path: String) -> (r: Result<usize, PipelineError>)
        requires
            old(self).wf(),
            old(self).assets().len() == 0,
        ensures
            final(self).wf(),
            final(self).capacity() == old(self).capacity(),
            old(self).capacity() > 0 <==> r is Ok,
            r is Err ==> r == Err::<usize, PipelineError>(PipelineError::ArenaFull) && *final(self)
                == *old(self),
            r is Ok ==> {
                &&& r->Ok_0 == 0
                &&& final(self).keys() == seq![path_digest(file_path@)]
                &&& final(self).assets().len() == 1
                &&& final(self).assets()[0].file_path@ == file_path@
                &&& final(self).assets()[0].transformer_pattern@.len() == 0
                &&& final(self).assets()[0].content@.len() == 0
                &&& final(self).finished() == seq![false]
                &&& final(self).in_flight() == 1
                &&& final(self).actions() == old(self).actions().push(Action::ReadContents(0))
            },
    {
        let key = hash_path_buff_sha_256(file_path.as_str());
        let r = self.register(file_path, key);
        proof {
            if r is Ok {
                assert(self.keys@ =~= seq![path_digest(file_path@)]);
                assert(self.finished@ =~= seq![false]);
            }
        }
        r
    }

    /// Registers a discovered file unless its dedup key is already known.
    /// `Ok(None)`: a known file, dropped without any change.
    pub fn create_asset(&mut self, file_path: String) -> (r: Result<Option<usize>, PipelineError>)
        requires
            old(self).wf(),
        ensures
            final(self).wf(),
            final(self).capacity() == old(self).capacity(),
            old(self).keys().contains(path_digest(file_path@)) ==> r == Ok::<
                Option<usize>,
                PipelineError,
            >(None) && *final(self) == *old(self),
            !old(self).keys().contains(path_digest(file_path@)) && old(self).assets().len()
                >= old(self).capacity() ==> r == Err::<Option<usize>, PipelineError>(
                PipelineError::ArenaFull,
            ) && *final(self) == *old(self),
            !old(self).keys().contains(path_digest(file_path@)) && old(self).assets().len()
                < old(self).capacity() ==> {
                &&& r == Ok::<Option<usize>, PipelineError>(Some(old(self).assets().len() as usize))
                &&& final(self).keys() == discover(old(self).keys(), path_digest(file_path@))
                &&& final(self).assets().len() == old(self).assets().len() + 1
                &&& final(self).assets().subrange(0, old(self).assets().len() as int) == old(
                    self,
                ).assets()
                &&& final(self).assets().last().file_path@ == file_path@
                &&& final(self).assets().last().transformer_pattern@.len() == 0
                &&& final(self).assets().last().content@.len() == 0
                &&& final(self).finished() == old(self).finished().push(false)
                &&& final(self).in_flight() == old(self).in_flight() + 1
                &&& final(self).actions() == old(self).actions().push(
                    Action::ReadContents(old(self).assets().len() as usize),
                )
            },
            old(self).keys().contains(path_digest(file_path@)) ==> final(self).keys() == discover(
                old(self).keys(),
                path_digest(file_path@),
            ),
    {
        let key = hash_path_buff_sha_256(file_path.as_str());
        if index_contains(&self.index, &key) {
            return Ok(None);
        }
        match self.register(file_path, key) {
            Ok(id) => Ok(Some(id)),
            Err(e) => Err(e),
        }
    }
}

proof fn lemma_count_finish(s: Seq<bool>, id: int)
    requires
        0 <= id < s.len(),
        !s[id],
    ensures
        count_unfinished(s.update(id, true)) + 1 == count_unfinished(s),
    decreases s.len(),
{
    let t = s.update(id, true);
    if id == s.len() - 1 {
        assert(t.drop_last() =~= s.drop_last());
    } else {
        assert(t.drop_last() =~= s.drop_last().update(id, true));
        lemma_count_finish(s.drop_last(), id);
    }
}

proof fn lemma_count_bound(s: Seq<bool>)
    ensures
        count_unfinished(s) <= s.len(),
    decreases s.len(),
{
    if s.len() > 0 {
        lemma_count_bound(s.drop_last());
    }
}

} // verus!
