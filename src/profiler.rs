use vstd::prelude::*;

verus! {

/// Accumulated timings of one named stage.
pub struct Profile {
    pub name: String,
    /// Sum of the recorded durations, in nanoseconds; stays at the largest
    /// value rather than wrapping.
    pub total: u128,
    /// Number of recorded durations.
    pub count: u128,
}

/// Per-stage timing totals, keyed by stage name in order of first record.
pub struct StandardProfiler {
    profiles: Vec<Profile>,
}

/// `a + b`, held at the largest `u128`.
pub open spec fn add_capped(a: u128, b: u128) -> u128 {
    if a + b > u128::MAX {
        u128::MAX
    } else {
        (a + b) as u128
    }
}

/// Position of the profile named `name`, or -1.
pub open spec fn profile_position(names: Seq<Seq<char>>, name: Seq<char>) -> int
    decreases names.len(),
{
    if names.len() == 0 {
        -1
    } else if names.last() == name {
        names.len() - 1
    } else {
        profile_position(names.drop_last(), name)
    }
}

proof fn lemma_profile_position(names: Seq<Seq<char>>, name: Seq<char>)
    ensures
        -1 <= profile_position(names, name) < names.len(),
        profile_position(names, name) >= 0 ==> names[profile_position(names, name)] == name,
    decreases names.len(),
{
    if names.len() > 0 {
        lemma_profile_position(names.drop_last(), name);
    }
}

impl StandardProfiler {
    /// The stage names, in order of first record.
    pub closed spec fn names(&self) -> Seq<Seq<char>> {
        self.profiles@.map_values(|p: Profile| p.name@)
    }

    /// The `(total, count)` of each stage, in the same order.
    pub closed spec fn totals(&self) -> Seq<(u128, u128)> {
        self.profiles@.map_values(|p: Profile| (p.total, p.count))
    }

    /// The `(total, count)` recorded for `name`; `(0, 0)` when none was.
    pub open spec fn totals_of(&self, name: Seq<char>) -> (u128, u128) {
        let k = profile_position(self.names(), name);
        if k < 0 {
            (0, 0)
        } else {
            self.totals()[k]
        }
    }

    /// One total per name, and no name recorded under two entries.
    pub open spec fn wf(&self) -> bool {
        &&& self.names().len() == self.totals().len()
        &&& self.names().no_duplicates()
    }

    pub fn new() -> (r: Self)
        ensures
            r.wf(),
            r.names().len() == 0,
            r.totals().len() == 0,
    {
        StandardProfiler { profiles: Vec::new() }
    }

    fn find(&self, name: &str) -> (r: Option<usize>)
        ensures
            r is None <==> profile_position(self.names(), name@) < 0,
            r is Some ==> r->Some_0 == profile_position(self.names(), name@),
    {
        let wanted = name.to_owned();
        let mut k: usize = self.profiles.len();
        assert(self.names().subrange(0, k as int) =~= self.names());
        while k > 0
            invariant
                k <= self.profiles@.len(),
                wanted@ == name@,
                profile_position(self.names(), name@) == profile_position(
                    self.names().subrange(0, k as int),
                    name@,
                ),
            decreases k,
        {
            assert(self.names().subrange(0, k as int).last() == self.profiles@[k - 1].name@);
            if self.profiles[k - 1].name == wanted {
                return Some(k - 1);
            }
            assert(self.names().subrange(0, k as int).drop_last() =~= self.names().subrange(
                0,
                k - 1,
            ));
            k = k - 1;
        }
        None
    }

    /// Adds one duration of `nanos` nanoseconds to the stage `name`.
    pub fn record(&mut self, name: &str, nanos: u128)
        requires
            old(self).wf(),
        ensures
            final(self).wf(),
            profile_position(old(self).names(), name@) < 0 ==> final(self).names() == old(
                self,
            ).names().push(name@) && final(self).totals() == old(self).totals().push((nanos, 1u128)),
            profile_position(old(self).names(), name@) >= 0 ==> final(self).names() == old(
                self,
            ).names() && final(self).totals() == old(self).totals().update(
                profile_position(old(self).names(), name@),
                (
                    add_capped(old(self).totals_of(name@).0, nanos),
                    add_capped(old(self).totals_of(name@).1, 1),
                ),
            ),
    {
        proof {
            lemma_profile_position(self.names(), name@);
        }
        match self.find(name) {
            None => {
                self.profiles.push(Profile { name: name.to_owned(), total: nanos, count: 1 });
                assert(final(self).names() =~= old(self).names().push(name@));
                assert(final(self).totals() =~= old(self).totals().push((nanos, 1u128)));
                proof {
                    let ns = old(self).names();
                    assert forall|i: int, j: int| 0 <= i < j < ns.len() + 1 implies ns.push(name@)[i] != ns.push(name@)[j] by {
                        if j == ns.len() && ns[i] == name@ {
                            lemma_absent(ns, name@, i);
                        }
                    }
                }
            },
            Some(k) => {
                let old_total = self.profiles[k].total;
                let old_count = self.profiles[k].count;
                let total = if old_total > u128::MAX - nanos {
                    u128::MAX
                } else {
                    old_total + nanos
                };
                let count = if old_count == u128::MAX {
                    u128::MAX
                } else {
                    old_count + 1
                };
                let profile = Profile { name: self.profiles[k].name.clone(), total, count };
                self.profiles.set(k, profile);
                assert(final(self).names() =~= old(self).names());
                assert(final(self).totals() =~= old(self).totals().update(k as int, (total, count)));
            },
        }
    }

    /// Mean recorded duration of stage `name` in nanoseconds, rounded
    /// down; 0 for a stage never recorded.
    pub fn get_nanos(&self, name: &str) -> (r: u128)
        ensures
            self.totals_of(name@).1 == 0 ==> r == 0,
            self.totals_of(name@).1 > 0 ==> r == self.totals_of(name@).0 / self.totals_of(name@).1,
    {
        proof {
            lemma_profile_position(self.names(), name@);
        }
        match self.find(name) {
            None => 0,
            Some(k) => {
                let count = self.profiles[k].count;
                if count == 0 {
                    0
                } else {
                    self.profiles[k].total / count
                }
            },
        }
    }

    /// Mean recorded duration of stage `name` in whole microseconds.
    pub fn get_micro(&self, name: &str) -> (r: u128)
        ensures
            self.totals_of(name@).1 == 0 ==> r == 0,
            self.totals_of(name@).1 > 0 ==> r == self.totals_of(name@).0 / self.totals_of(name@).1
                / 1000,
    {
        self.get_nanos(name) / 1000
    }

    /// The names of all recorded stages.
    pub fn get_profiles(&self) -> (r: Vec<String>)
        requires
            self.wf(),
        ensures
            r@.map_values(|n: String| n@).no_duplicates(),
            r@.len() == self.names().len(),
            forall|i: int| 0 <= i < r@.len() ==> (#[trigger] r@[i])@ == self.names()[i],
    {
        let mut r: Vec<String> = Vec::new();
        let mut k: usize = 0;
        while k < self.profiles.len()
            invariant
                k <= self.profiles@.len(),
                r@.len() == k,
                forall|i: int| 0 <= i < k ==> (#[trigger] r@[i])@ == self.names()[i],
            decreases self.profiles@.len() - k,
        {
            r.push(self.profiles[k].name.clone());
            k = k + 1;
        }
        assert(r@.map_values(|n: String| n@) =~= self.names());
        r
    }
}

/// An absent name occurs nowhere.
proof fn lemma_absent(names: Seq<Seq<char>>, name: Seq<char>, i: int)
    requires
        profile_position(names, name) < 0,
        0 <= i < names.len(),
    ensures
        names[i] != name,
    decreases names.len(),
{
    if i < names.len() - 1 {
        lemma_absent(names.drop_last(), name, i);
    }
}

} // verus!
