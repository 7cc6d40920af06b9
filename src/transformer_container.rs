use crate::paths::{file_name, file_name_of};
use crate::plugins::Plugin;
use vstd::prelude::*;

verus! {

/// Whether the glob `pattern` matches the file name `name`.
pub uninterp spec fn glob_matches(pattern: Seq<char>, name: Seq<char>) -> bool;

/// Relies on glob_match::glob_match: whether the glob matches the path; a
/// function of the two strings alone.
#[verifier::external_body]
fn glob_match(pattern: &str, name: &str) -> (r: bool)
    ensures
        r == glob_matches(pattern@, name@),
{
    glob_match::glob_match(pattern, name)
}

/// Position of `pattern` among `patterns`, or -1 when absent.
pub open spec fn pattern_position(patterns: Seq<Seq<char>>, pattern: Seq<char>) -> int
    decreases patterns.len(),
{
    if patterns.len() == 0 {
        -1
    } else if patterns.last() == pattern {
        patterns.len() - 1
    } else {
        pattern_position(patterns.drop_last(), pattern)
    }
}

/// Position of the first of `patterns` that matches `name`, or -1.
pub open spec fn first_match(patterns: Seq<Seq<char>>, name: Seq<char>) -> int
    decreases patterns.len(),
{
    if patterns.len() == 0 {
        -1
    } else if glob_matches(patterns[0], name) {
        0
    } else if first_match(patterns.drop_first(), name) < 0 {
        -1
    } else {
        first_match(patterns.drop_first(), name) + 1
    }
}

/// Maps filename patterns to ordered plugin chains.
pub struct TransformerContainer {
    patterns: Vec<String>,
    chains: Vec<Vec<Plugin>>,
}

impl TransformerContainer {
    /// The registered patterns, in the order they were first added.
    pub closed spec fn patterns(&self) -> Seq<Seq<char>> {
        self.patterns@.map_values(|p: String| p@)
    }

    /// The chain of each pattern, in registration order.
    pub closed spec fn chains(&self) -> Seq<Seq<Plugin>> {
        self.chains@.map_values(|c: Vec<Plugin>| c@)
    }

    /// The chain registered under `pattern`; empty when it is not registered.
    pub open spec fn chain(&self, pattern: Seq<char>) -> Seq<Plugin> {
        let k = pattern_position(self.patterns(), pattern);
        if k < 0 {
            Seq::empty()
        } else {
            self.chains()[k]
        }
    }

    /// One chain per pattern, and no pattern registered twice.
    pub open spec fn wf(&self) -> bool {
        &&& self.patterns().len() == self.chains().len()
        &&& self.patterns().no_duplicates()
    }

    pub fn new() -> (r: Self)
        ensures
            r.wf(),
            r.patterns().len() == 0,
            r.chains().len() == 0,
    {
        TransformerContainer { patterns: Vec::new(), chains: Vec::new() }
    }

    /// Appends `transformer` to the chain of `pattern`, registering the
    /// pattern when it is new.
    pub fn add(&mut self, pattern: &str, transformer: Plugin)
        requires
            old(self).wf(),
        ensures
            final(self).wf(),
            pattern_position(old(self).patterns(), pattern@) < 0 ==> final(self).patterns()
                == old(self).patterns().push(pattern@) && final(self).chains() == old(
                self,
            ).chains().push(seq![transformer]),
            pattern_position(old(self).patterns(), pattern@) >= 0 ==> final(self).patterns()
                == old(self).patterns() && final(self).chains() == old(self).chains().update(
                pattern_position(old(self).patterns(), pattern@),
                old(self).chains()[pattern_position(old(self).patterns(), pattern@)].push(
                    transformer,
                ),
            ),
            final(self).chain(pattern@) == old(self).chain(pattern@).push(transformer),
            forall|q: Seq<char>| q != pattern@ ==> #[trigger] final(self).chain(q) == old(self).chain(q),
    {
        proof {
            lemma_pattern_position(self.patterns(), pattern@);
        }
        assert(self.patterns@.len() == self.chains@.len());
        match self.find(pattern) {
            None => {
                self.patterns.push(pattern.to_owned());
                let mut chain: Vec<Plugin> = Vec::new();
                chain.push(transformer);
                self.chains.push(chain);
                assert(final(self).patterns() =~= old(self).patterns().push(pattern@));
                assert(final(self).chains() =~= old(self).chains().push(seq![transformer]));
                proof {
                    let ps = old(self).patterns();
                    assert(ps.push(pattern@).drop_last() =~= ps);
                    assert forall|q: Seq<char>| q != pattern@ implies #[trigger] final(self).chain(q) == old(self).chain(q) by {
                        assert(pattern_position(ps.push(pattern@), q) == pattern_position(ps, q));
                        lemma_pattern_position(ps, q);
                    }
                    assert(seq![transformer] =~= Seq::<Plugin>::empty().push(transformer));
                    assert forall|i: int, j: int| 0 <= i < j < ps.len() + 1 implies ps.push(pattern@)[i] != ps.push(pattern@)[j] by {
                        if j == ps.len() {
                            if ps[i] == pattern@ {
                                lemma_absent(ps, pattern@, i);
                            }
                        }
                    }
                }
            },
            Some(k) => {
                let mut chain = self.chains[k].clone();
                chain.push(transformer);
                self.chains.set(k, chain);
                assert(final(self).patterns() =~= old(self).patterns());
                assert(final(self).chains() =~= old(self).chains().update(
                    k as int,
                    old(self).chains()[k as int].push(transformer),
                ));
                proof {
                    let ps = old(self).patterns();
                    assert forall|q: Seq<char>| q != pattern@ implies #[trigger] final(self).chain(q) == old(self).chain(q) by {
                        lemma_pattern_position(ps, q);
                    }
                }
            },
        }
    }

    fn find(&self, pattern: &str) -> (r: Option<usize>)
        requires
            self.wf(),
        ensures
            r is None <==> pattern_position(self.patterns(), pattern@) < 0,
            r is Some ==> r->Some_0 == pattern_position(self.patterns(), pattern@),
            r is Some ==> r->Some_0 < self.chains@.len(),
    {
        let wanted = pattern.to_owned();
        let mut k: usize = self.patterns.len();
        assert(self.patterns().subrange(0, k as int) =~= self.patterns());
        while k > 0
            invariant
                k <= self.patterns@.len() == self.chains@.len(),
                wanted@ == pattern@,
                pattern_position(self.patterns(), pattern@) == pattern_position(
                    self.patterns().subrange(0, k as int),
                    pattern@,
                ),
            decreases k,
        {
            assert(self.patterns().subrange(0, k as int).last() == self.patterns@[k - 1]@);
            if self.patterns[k - 1] == wanted {
                return Some(k - 1);
            }
            assert(self.patterns().subrange(0, k as int).drop_last() =~= self.patterns().subrange(
                0,
                k - 1,
            ));
            k = k - 1;
        }
        None
    }

    /// The first registered pattern that matches the file name of `file_path`.
    pub fn match_pattern(&self, file_path: &str) -> (r: Result<String, ()>)
        requires
            self.wf(),
        ensures
            first_match(self.patterns(), file_name(file_path@)) < 0 <==> r is Err,
            r is Ok ==> r->Ok_0@ == self.patterns()[first_match(
                self.patterns(),
                file_name(file_path@),
            )],
    {
        let name = file_name_of(file_path);
        let ghost pats = self.patterns();
        let mut k: usize = 0;
        assert(pats.subrange(0, pats.len() as int) =~= pats);
        while k < self.patterns.len()
            invariant
                k <= self.patterns@.len(),
                pats == self.patterns(),
                name@ == file_name(file_path@),
                first_match(pats, name@) == if first_match(pats.subrange(k as int, pats.len() as int), name@) < 0 {
                    -1
                } else {
                    first_match(pats.subrange(k as int, pats.len() as int), name@) + k
                },
            decreases self.patterns@.len() - k,
        {
            proof {
                let sub = pats.subrange(k as int, pats.len() as int);
                assert(sub[0] == pats[k as int]);
                assert(sub.drop_first() =~= pats.subrange(k + 1, pats.len() as int));
            }
            if glob_match(self.patterns[k].as_str(), name.as_str()) {
                return Ok(self.patterns[k].clone());
            }
            k = k + 1;
        }
        assert(pats.subrange(k as int, pats.len() as int).len() == 0);
        Err(())
    }

    /// The plugin at position `index` of the chain of `pattern`, or `None`
    /// past the chain's end or for an unknown pattern.
    pub fn index(&self, pattern: &str, index: usize) -> (r: Option<&Plugin>)
        requires
            self.wf(),
        ensures
            index < self.chain(pattern@).len() ==> r is Some && *r->Some_0 == self.chain(
                pattern@,
            )[index as int],
            index >= self.chain(pattern@).len() ==> r is None,
    {
        match self.find(pattern) {
            None => None,
            Some(k) => {
                if index < self.chains[k].len() {
                    Some(&self.chains[k][index])
                } else {
                    None
                }
            },
        }
    }

    /// The length of the chain of `pattern`.
    pub fn chain_len(&self, pattern: &str) -> (r: usize)
        requires
            self.wf(),
        ensures
            r == self.chain(pattern@).len(),
    {
        match self.find(pattern) {
            None => 0,
            Some(k) => self.chains[k].len(),
        }
    }
}

proof fn lemma_pattern_position(patterns: Seq<Seq<char>>, pattern: Seq<char>)
    ensures
        -1 <= pattern_position(patterns, pattern) < patterns.len(),
        pattern_position(patterns, pattern) >= 0 ==> patterns[pattern_position(patterns, pattern)]
            == pattern,
    decreases patterns.len(),
{
    if patterns.len() > 0 {
        lemma_pattern_position(patterns.drop_last(), pattern);
    }
}

/// An absent pattern occurs nowhere.
proof fn lemma_absent(patterns: Seq<Seq<char>>, pattern: Seq<char>, i: int)
    requires
        pattern_position(patterns, pattern) < 0,
        0 <= i < patterns.len(),
    ensures
        patterns[i] != pattern,
    decreases patterns.len(),
{
    if i < patterns.len() - 1 {
        lemma_absent(patterns.drop_last(), pattern, i);
    }
}

} // verus!
