//! The per-cycle activity mapping: subdirectory name to "has recent
//! activity".
//!
//! The mapping is rebuilt from scratch every cycle.  Entries are recorded in
//! completion order; the abstract value is a map in which a later record of
//! the same name wins.  Filesystem semantics guarantee the names of real
//! sibling directories are unique, so the order of recording never matters
//! there — [`lemma_aggregation_order_irrelevant`] states that guarantee.

use vstd::prelude::*;
use vstd::seq_lib::group_to_multiset_ensures;

verus! {

/// One recorded per-subdirectory verdict.
pub struct SubdirStatus {
    /// The immediate child directory's base name.
    pub name: String,
    /// Whether a qualifying file was found under it.
    pub has_recent_activity: bool,
}

/// The mapping described by the first `n` recorded verdicts; a later record
/// of the same name overrides an earlier one.
pub open spec fn map_of_prefix(s: Seq<SubdirStatus>, n: int) -> Map<Seq<char>, bool>
    decreases n,
{
    if n <= 0 {
        Map::empty()
    } else {
        map_of_prefix(s, n - 1).insert(s[n - 1].name@, s[n - 1].has_recent_activity)
    }
}

/// The mapping described by a whole record list.
pub open spec fn map_of(s: Seq<SubdirStatus>) -> Map<Seq<char>, bool> {
    map_of_prefix(s, s.len() as int)
}

/// Whether no two records share a name.
pub open spec fn unique_names(s: Seq<SubdirStatus>) -> bool {
    forall|i: int, j: int| 0 <= i < j < s.len() ==> s[i].name@ != s[j].name@
}

/// A prefix mapping depends only on the records it covers.
pub proof fn lemma_map_of_prefix_congruent(s1: Seq<SubdirStatus>, s2: Seq<SubdirStatus>, n: int)
    requires
        forall|j: int| 0 <= j < n ==> s1[j] == s2[j],
    ensures
        map_of_prefix(s1, n) == map_of_prefix(s2, n),
    decreases n,
{
    if n > 0 {
        lemma_map_of_prefix_congruent(s1, s2, n - 1);
    }
}

/// A name is bound by the first `n` records exactly when one of them
/// carries it.
proof fn lemma_map_of_prefix_contains(s: Seq<SubdirStatus>, n: int, name: Seq<char>)
    requires
        n <= s.len(),
    ensures
        map_of_prefix(s, n).contains_key(name) == exists|i: int|
            0 <= i < n && s[i].name@ == name,
    decreases n,
{
    if n > 0 {
        lemma_map_of_prefix_contains(s, n - 1, name);
        if s[n - 1].name@ == name {
            assert(0 <= n - 1 < n && s[n - 1].name@ == name);
        } else {
            if exists|i: int| 0 <= i < n && s[i].name@ == name {
                let i = choose|i: int| 0 <= i < n && s[i].name@ == name;
                assert(0 <= i < n - 1 && s[i].name@ == name);
            }
        }
    }
}

/// A name is bound by the full mapping exactly when some record carries it.
pub proof fn lemma_map_of_contains(s: Seq<SubdirStatus>, name: Seq<char>)
    ensures
        map_of(s).contains_key(name) == exists|i: int| 0 <= i < s.len() && s[i].name@ == name,
{
    lemma_map_of_prefix_contains(s, s.len() as int, name);
}

/// The value bound to a name is the one of the last record carrying it.
proof fn lemma_map_of_prefix_value(s: Seq<SubdirStatus>, n: int, i: int)
    requires
        0 <= i < n <= s.len(),
        forall|j: int| i < j < n ==> s[j].name@ != s[i].name@,
    ensures
        map_of_prefix(s, n).contains_key(s[i].name@),
        map_of_prefix(s, n)[s[i].name@] == s[i].has_recent_activity,
    decreases n,
{
    if i == n - 1 {
    } else {
        lemma_map_of_prefix_value(s, n - 1, i);
    }
}

/// The pair a mapping with unique names binds for a name is exactly the one
/// record carrying that name.
pub proof fn lemma_map_of_pair(s: Seq<SubdirStatus>, name: Seq<char>, active: bool)
    requires
        unique_names(s),
    ensures
        (map_of(s).contains_key(name) && map_of(s)[name] == active) == exists|i: int|
            0 <= i < s.len() && s[i].name@ == name && s[i].has_recent_activity == active,
{
    lemma_map_of_contains(s, name);
    if exists|i: int| 0 <= i < s.len() && s[i].name@ == name {
        let i = choose|i: int| 0 <= i < s.len() && s[i].name@ == name;
        assert(forall|j: int| i < j < s.len() ==> s[j].name@ != s[i].name@);
        lemma_map_of_prefix_value(s, s.len() as int, i);
        if exists|i2: int|
            0 <= i2 < s.len() && s[i2].name@ == name && s[i2].has_recent_activity == active {
            let i2 = choose|i2: int|
                0 <= i2 < s.len() && s[i2].name@ == name && s[i2].has_recent_activity == active;
            assert(i == i2);
        }
    }
}

/// Two record lists that are permutations of each other and each free of
/// repeated names describe the same mapping: aggregation order never
/// matters.  This is what lets the sequential, concurrent and parallel
/// dispatch modes — which may complete scans in any order — report
/// identical activity mappings for the same snapshot.
pub proof fn lemma_aggregation_order_irrelevant(s1: Seq<SubdirStatus>, s2: Seq<SubdirStatus>)
    requires
        s1.to_multiset() == s2.to_multiset(),
        unique_names(s1),
        unique_names(s2),
    ensures
        map_of(s1) == map_of(s2),
{
    broadcast use group_to_multiset_ensures;

    assert forall|name: Seq<char>| #[trigger] map_of(s1).contains_key(name) implies map_of(
        s2,
    ).contains_key(name) && map_of(s2)[name] == map_of(s1)[name] by {
        let active = map_of(s1)[name];
        lemma_map_of_pair(s1, name, active);
        lemma_map_of_pair(s2, name, active);
        let i = choose|i: int|
            0 <= i < s1.len() && s1[i].name@ == name && s1[i].has_recent_activity == active;
        assert(s1.contains(s1[i]));
        assert(s1.to_multiset().count(s1[i]) > 0);
        assert(s2.to_multiset().count(s1[i]) > 0);
        assert(s2.contains(s1[i]));
        let k = choose|k: int| 0 <= k < s2.len() && s2[k] == s1[i];
        assert(0 <= k < s2.len() && s2[k].name@ == name && s2[k].has_recent_activity == active);
    }
    assert forall|name: Seq<char>| #[trigger] map_of(s2).contains_key(name) implies map_of(
        s1,
    ).contains_key(name) by {
        lemma_map_of_contains(s1, name);
        lemma_map_of_contains(s2, name);
        let i = choose|i: int| 0 <= i < s2.len() && s2[i].name@ == name;
        assert(s2.contains(s2[i]));
        assert(s2.to_multiset().count(s2[i]) > 0);
        assert(s1.to_multiset().count(s2[i]) > 0);
        assert(s1.contains(s2[i]));
        let k = choose|k: int| 0 <= k < s1.len() && s1[k] == s2[i];
        assert(0 <= k < s1.len() && s1[k].name@ == name);
    }
    assert(map_of(s1) =~= map_of(s2));
}

/// The per-cycle activity mapping, rebuilt from scratch every cycle.
pub struct ActivityResult {
    entries: Vec<SubdirStatus>,
}

impl View for ActivityResult {
    type V = Map<Seq<char>, bool>;

    closed spec fn view(&self) -> Map<Seq<char>, bool> {
        map_of(self.entries@)
    }
}

impl ActivityResult {
    /// The recorded verdicts, in recording order.
    pub closed spec fn records(&self) -> Seq<SubdirStatus> {
        self.entries@
    }

    /// An empty mapping.
    pub fn new() -> (r: ActivityResult)
        ensures
            r@ == Map::<Seq<char>, bool>::empty(),
            r.records() == Seq::<SubdirStatus>::empty(),
    {
        ActivityResult { entries: Vec::new() }
    }

    /// Records one verdict; on a repeated name the new verdict wins.
    pub fn insert(&mut self, name: String, active: bool)
        ensures
            final(self).records() == old(self).records().push(
                SubdirStatus { name: name, has_recent_activity: active },
            ),
            final(self)@ == old(self)@.insert(name@, active),
    {
        let ghost pre = self.entries@;
        let ghost rec = SubdirStatus { name: name, has_recent_activity: active };
        self.entries.push(SubdirStatus { name, has_recent_activity: active });
        proof {
            lemma_map_of_prefix_congruent(pre.push(rec), pre, pre.len() as int);
            assert(self.entries@ == pre.push(rec));
            assert(map_of(pre.push(rec)) == map_of_prefix(pre.push(rec), pre.len() as int).insert(
                rec.name@,
                rec.has_recent_activity,
            ));
        }
    }

    /// The number of recorded verdicts.
    pub fn entry_count(&self) -> (n: usize)
        ensures
            n == self.records().len(),
    {
        self.entries.len()
    }

    /// The verdict recorded at position `i`.
    pub fn entry_at(&self, i: usize) -> (e: &SubdirStatus)
        requires
            i < self.records().len(),
        ensures
            *e == self.records()[i as int],
    {
        &self.entries[i]
    }

    /// Looks a name up: the verdict of the last record carrying it, if any.
    pub fn get(&self, name: &String) -> (r: Option<bool>)
        ensures
            match r {
                Some(active) => self@.contains_key(name@) && self@[name@] == active,
                None => !self@.contains_key(name@),
            },
    {
        let mut j: usize = self.entries.len();
        while j > 0
            invariant
                j <= self.entries@.len(),
                forall|k: int| j <= k < self.entries@.len() ==> self.entries@[k].name@ != name@,
            decreases j,
        {
            j = j - 1;
            if self.entries[j].name.eq(name) {
                proof {
                    lemma_map_of_prefix_value(self.entries@, self.entries@.len() as int, j as int);
                }
                return Some(self.entries[j].has_recent_activity);
            }
        }
        proof {
            lemma_map_of_contains(self.entries@, name@);
        }
        None
    }

    /// Whether two results describe the same mapping, whatever order their
    /// verdicts were recorded in.
    pub fn same_mapping(&self, other: &ActivityResult) -> (r: bool)
        ensures
            r == (self@ == other@),
    {
        let mut i: usize = 0;
        while i < self.entries.len()
            invariant
                i <= self.entries@.len(),
                forall|k: int|
                    0 <= k < i ==> {
                        &&& other@.contains_key(#[trigger] self.entries@[k].name@)
                        &&& other@[self.entries@[k].name@] == self@[self.entries@[k].name@]
                    },
            decreases self.entries@.len() - i,
        {
            let name = &self.entries[i].name;
            proof {
                lemma_map_of_contains(self.entries@, self.entries@[i as int].name@);
                assert(0 <= i < self.entries@.len() && self.entries@[i as int].name@
                    == self.entries@[i as int].name@);
                assert(self@.contains_key(self.entries@[i as int].name@));
            }
            let mine = self.get(name);
            let theirs = other.get(name);
            let agree = match (mine, theirs) {
                (Some(a), Some(b)) => a == b,
                (None, None) => true,
                _ => false,
            };
            if !agree {
                return false;
            }
            i = i + 1;
        }
        let mut j: usize = 0;
        while j < other.entries.len()
            invariant
                j <= other.entries@.len(),
                forall|k: int|
                    0 <= k < self.entries@.len() ==> {
                        &&& other@.contains_key(#[trigger] self.entries@[k].name@)
                        &&& other@[self.entries@[k].name@] == self@[self.entries@[k].name@]
                    },
                forall|k: int|
                    0 <= k < j ==> self@.contains_key(#[trigger] other.entries@[k].name@),
            decreases other.entries@.len() - j,
        {
            let name = &other.entries[j].name;
            if self.get(name).is_none() {
                proof {
                    lemma_map_of_contains(other.entries@, other.entries@[j as int].name@);
                    assert(other@.contains_key(other.entries@[j as int].name@));
                }
                return false;
            }
            j = j + 1;
        }
        proof {
            assert forall|name: Seq<char>| #[trigger] self@.dom().contains(name)
                implies other@.dom().contains(name) && other@[name] == self@[name] by {
                lemma_map_of_contains(self.entries@, name);
                let k = choose|k: int|
                    0 <= k < self.entries@.len() && self.entries@[k].name@ == name;
                assert(other@.contains_key(self.entries@[k].name@));
                assert(other@[self.entries@[k].name@] == self@[self.entries@[k].name@]);
            }
            assert forall|name: Seq<char>| #[trigger] other@.dom().contains(name)
                implies self@.dom().contains(name) by {
                lemma_map_of_contains(other.entries@, name);
                let k = choose|k: int|
                    0 <= k < other.entries@.len() && other.entries@[k].name@ == name;
                assert(self@.contains_key(other.entries@[k].name@));
            }
            assert(self@.dom() =~= other@.dom());
            assert(self@ =~= other@);
        }
        true
    }
}

} // verus!
