//! The per-run cache of remote fetches.
//!
//! The cache records, for every remote URL that resolution has reached, one
//! entry that is created at most once: first `Pending` while the single
//! permitted network fetch for that URL is under way, then either `Done`
//! with the local file that holds the body, or `Failed` with the cause.
//! Callers that hit a `Pending` entry share the outcome of the fetch in
//! flight instead of starting another one, and callers that hit `Done` or
//! `Failed` get the recorded outcome without any further network access.

use vstd::prelude::*;
use vstd::string::*;

verus! {

/// Why a remote fetch came back empty-handed.
#[derive(Debug, Clone, Copy, PartialEq, Eq, Structural)]
pub enum FetchFailure {
    Timeout,
    Network,
    HttpStatus,
}

/// The recorded outcome of the one fetch a URL is granted.
#[derive(Debug)]
pub enum FetchState {
    Pending,
    Done(String),
    Failed(FetchFailure),
}

impl Clone for FetchState {
    fn clone(&self) -> (res: Self)
        ensures
            res == *self,
    {
        match self {
            FetchState::Pending => FetchState::Pending,
            FetchState::Done(p) => FetchState::Done(p.clone()),
            FetchState::Failed(c) => FetchState::Failed(*c),
        }
    }
}

/// The outcome of a fetch, with the local path as a character sequence.
pub enum FetchStateView {
    Pending,
    Done(Seq<char>),
    Failed(FetchFailure),
}

impl View for FetchState {
    type V = FetchStateView;

    open spec fn view(&self) -> FetchStateView {
        match self {
            FetchState::Pending => FetchStateView::Pending,
            FetchState::Done(p) => FetchStateView::Done(p@),
            FetchState::Failed(c) => FetchStateView::Failed(*c),
        }
    }
}

/// No URL owns two entries.
pub open spec fn unique_keys(s: Seq<(String, FetchState)>) -> bool {
    forall|i: int, j: int| 0 <= i < j < s.len() ==> s[i].0@ != s[j].0@
}

/// The association list read as a map from URL to recorded outcome.
pub open spec fn assoc_map(s: Seq<(String, FetchState)>) -> Map<Seq<char>, FetchStateView>
    decreases s.len(),
{
    if s.len() == 0 {
        Map::empty()
    } else {
        assoc_map(s.drop_last()).insert(s.last().0@, s.last().1@)
    }
}

proof fn lemma_assoc_contains(s: Seq<(String, FetchState)>)
    ensures
        forall|k: Seq<char>|
            assoc_map(s).contains_key(k) <==> exists|i: int| 0 <= i < s.len() && s[i].0@ == k,
    decreases s.len(),
{
    if s.len() > 0 {
        lemma_assoc_contains(s.drop_last());
        assert forall|k: Seq<char>| assoc_map(s).contains_key(k) implies exists|i: int|
            0 <= i < s.len() && s[i].0@ == k by {
            if k == s.last().0@ {
                assert(s[s.len() - 1].0@ == k);
            } else {
                assert(assoc_map(s.drop_last()).contains_key(k));
                assert(exists|i: int| 0 <= i < s.drop_last().len() && s.drop_last()[i].0@ == k);
                let i = choose|i: int| 0 <= i < s.drop_last().len() && s.drop_last()[i].0@ == k;
                assert(s.drop_last()[i] == s[i]);
                assert(s[i].0@ == k);
            }
        }
        assert forall|k: Seq<char>|
            (exists|i: int| 0 <= i < s.len() && s[i].0@ == k) implies assoc_map(
            s,
        ).contains_key(k) by {
            let i = choose|i: int| 0 <= i < s.len() && s[i].0@ == k;
            if i < s.len() - 1 {
                assert(s.drop_last()[i] == s[i]);
                assert(exists|j: int| 0 <= j < s.drop_last().len() && s.drop_last()[j].0@ == k);
                assert(assoc_map(s.drop_last()).contains_key(k));
            } else {
                assert(k == s.last().0@);
            }
        }
    }
}

proof fn lemma_assoc_index(s: Seq<(String, FetchState)>, i: int)
    requires
        unique_keys(s),
        0 <= i < s.len(),
    ensures
        assoc_map(s).contains_key(s[i].0@),
        assoc_map(s)[s[i].0@] == s[i].1@,
    decreases s.len(),
{
    if i == s.len() - 1 {
    } else {
        assert(unique_keys(s.drop_last())) by {
            assert(forall|a: int, b: int|
                0 <= a < b < s.drop_last().len() ==> s.drop_last()[a].0@ != s.drop_last()[b].0@);
        }
        assert(s.drop_last()[i] == s[i]);
        lemma_assoc_index(s.drop_last(), i);
        assert(s[i].0@ != s.last().0@);
    }
}

proof fn lemma_assoc_update(s: Seq<(String, FetchState)>, i: int, e: (String, FetchState))
    requires
        unique_keys(s),
        0 <= i < s.len(),
        e.0@ == s[i].0@,
    ensures
        unique_keys(s.update(i, e)),
        assoc_map(s.update(i, e)) == assoc_map(s).insert(e.0@, e.1@),
    decreases s.len(),
{
    assert(unique_keys(s.update(i, e))) by {
        assert(forall|a: int|
            0 <= a < s.len() ==> #[trigger] s.update(i, e)[a].0@ == s[a].0@);
    }
    if i == s.len() - 1 {
        assert(s.update(i, e).drop_last() =~= s.drop_last());
        assert(s.update(i, e).last() == e);
        assert(assoc_map(s.drop_last()).insert(e.0@, e.1@) =~= assoc_map(s.drop_last()).insert(
            s.last().0@,
            s.last().1@,
        ).insert(e.0@, e.1@));
    } else {
        assert(unique_keys(s.drop_last())) by {
            assert(forall|a: int, b: int|
                0 <= a < b < s.drop_last().len() ==> s.drop_last()[a].0@ != s.drop_last()[b].0@);
        }
        assert(s.drop_last()[i] == s[i]);
        lemma_assoc_update(s.drop_last(), i, e);
        assert(s.update(i, e).drop_last() =~= s.drop_last().update(i, e));
        assert(s.update(i, e).last() == s.last());
        assert(s[i].0@ != s.last().0@);
        assert(assoc_map(s.drop_last()).insert(e.0@, e.1@).insert(s.last().0@, s.last().1@)
            =~= assoc_map(s.drop_last()).insert(s.last().0@, s.last().1@).insert(e.0@, e.1@));
    }
}

/// The per-run mapping from remote URL to the outcome of its one fetch.
#[derive(Debug)]
pub struct FetchCache {
    entries: Vec<(String, FetchState)>,
}

impl View for FetchCache {
    type V = Map<Seq<char>, FetchStateView>;

    closed spec fn view(&self) -> Map<Seq<char>, FetchStateView> {
        assoc_map(self.entries@)
    }
}

impl FetchCache {
    /// One entry per URL, always.
    pub closed spec fn wf(&self) -> bool {
        unique_keys(self.entries@)
    }

    /// An empty cache: no URL has been fetched or asked for.
    pub fn new() -> (c: FetchCache)
        ensures
            c.wf(),
            c@ == Map::<Seq<char>, FetchStateView>::empty(),
    {
        FetchCache { entries: Vec::new() }
    }

    fn find_index(&self, url: &str) -> (r: Option<usize>)
        ensures
            match r {
                Some(i) => i < self.entries@.len() && self.entries@[i as int].0@ == url@,
                None => forall|i: int|
                    0 <= i < self.entries@.len() ==> self.entries@[i].0@ != url@,
            },
    {
        let mut i: usize = 0;
        while i < self.entries.len()
            invariant
                i <= self.entries@.len(),
                forall|j: int| 0 <= j < i ==> self.entries@[j].0@ != url@,
            decreases self.entries@.len() - i,
        {
            if crate::strutil::str_eq(self.entries[i].0.as_str(), url) {
                return Some(i);
            }
            i += 1;
        }
        None
    }

    /// The recorded outcome for `url`, if its entry exists.
    pub fn lookup(&self, url: &str) -> (r: Option<FetchState>)
        requires
            self.wf(),
        ensures
            match r {
                Some(st) => self@.contains_key(url@) && self@[url@] == st@,
                None => !self@.contains_key(url@),
            },
    {
        proof {
            lemma_assoc_contains(self.entries@);
        }
        match self.find_index(url) {
            Some(i) => {
                proof {
                    lemma_assoc_index(self.entries@, i as int);
                }
                Some(self.entries[i].1.clone())
            },
            None => None,
        }
    }

    /// Create the one entry for `url`, marking its fetch as under way.
    pub fn set_pending(&mut self, url: &str)
        requires
            old(self).wf(),
            !old(self)@.contains_key(url@),
        ensures
            final(self).wf(),
            final(self)@ == old(self)@.insert(url@, FetchStateView::Pending),
    {
        proof {
            lemma_assoc_contains(self.entries@);
        }
        let ghost prev = self.entries@;
        self.entries.push((String::from_str(url), FetchState::Pending));
        proof {
            assert(self.entries@.drop_last() =~= prev);
            assert(forall|i: int| 0 <= i < prev.len() ==> prev[i].0@ != url@);
        }
    }

    /// Record the outcome of the fetch for `url`, which must be under way.
    pub fn settle(&mut self, url: &str, outcome: FetchState)
        requires
            old(self).wf(),
            old(self)@.contains_key(url@),
            old(self)@[url@] is Pending,
            !(outcome@ is Pending),
        ensures
            final(self).wf(),
            final(self)@ == old(self)@.insert(url@, outcome@),
    {
        proof {
            lemma_assoc_contains(self.entries@);
        }
        match self.find_index(url) {
            Some(i) => {
                let key = self.entries[i].0.clone();
                let ghost prev = self.entries@;
                let ghost e = (key, outcome);
                self.entries[i] = (key, outcome);
                proof {
                    assert(self.entries@ =~= prev.update(i as int, e));
                    lemma_assoc_update(prev, i as int, e);
                }
            },
            None => {
                proof {
                    assert(false);
                }
            },
        }
    }
}

} // verus!
