//! Lightweight frecency store: remembers which peers you jump to and how
//! recently, so your most-used chats float to the top of the flat list.
//!
//! Keyed by peer id (as a string). The recency-weighted score is a floating
//! point formula and is computed by the program around the library, from the
//! record that [`Store::visit`] returns; loading and saving the JSON file is
//! done there too.

use vstd::prelude::*;

use crate::text::{decimal, decimal_string, lemma_decimal_injective, str_eq};

verus! {

/// The usage record of one peer.
#[derive(Clone, Copy, Debug, PartialEq, Eq, Structural)]
pub struct Record {
    /// How many times the peer was jumped to.
    pub count: u32,
    /// Unix seconds of the last jump.
    pub last: i64,
}

/// One stored key and its record.
struct Visit {
    key: String,
    record: Record,
}

/// The frecency store: peer id (as a string) -> usage record.
///
/// The records are kept as a list of (key, record) pairs whose keys are
/// unique (the type invariant), read as a map by [`Store::records`]. A std
/// `HashMap` with `String` keys would carry no contract that Verus can use,
/// and keying one by the `i64` id would drop keys of the JSON file that are
/// not numbers; the list keeps the file's string keys and a map's meaning.
pub struct Store {
    visits: Vec<Visit>,
}

/// The map that a list of (key, record) pairs describes, later pairs winning.
pub open spec fn map_of(v: Seq<(Seq<char>, Record)>) -> Map<Seq<char>, Record>
    decreases v.len(),
{
    if v.len() == 0 {
        Map::empty()
    } else {
        map_of(v.drop_last()).insert(v.last().0, v.last().1)
    }
}

/// Whether no key occurs twice.
pub open spec fn unique_keys(v: Seq<(Seq<char>, Record)>) -> bool {
    forall|i: int, j: int| 0 <= i < j < v.len() ==> #[trigger] v[i].0 != #[trigger] v[j].0
}

/// The store key of a peer id: its decimal rendering.
pub open spec fn key_of(id: i64) -> Seq<char> {
    decimal(id as int)
}

/// One more visit, saturating at the largest count.
pub open spec fn next_count(c: u32) -> u32 {
    if c == u32::MAX {
        c
    } else {
        (c + 1) as u32
    }
}

/// The store after a jump to `id` at time `at`: the count grows by one
/// (starting from 0 for an unseen peer) and the last-jump time becomes `at`.
pub open spec fn spec_bump(m: Map<Seq<char>, Record>, id: i64, at: i64) -> Map<Seq<char>, Record> {
    let old_count = if m.contains_key(key_of(id)) {
        m[key_of(id)].count
    } else {
        0u32
    };
    m.insert(key_of(id), Record { count: next_count(old_count), last: at })
}

/// The record of `id` in a store, if the peer was ever jumped to.
pub open spec fn spec_visit(m: Map<Seq<char>, Record>, id: i64) -> Option<Record> {
    if m.contains_key(key_of(id)) {
        Some(m[key_of(id)])
    } else {
        None
    }
}

#[verifier::external_type_specification]
#[verifier::external_body]
pub struct ExSystemTime(std::time::SystemTime);

/// The machine's clock (`SystemTime::now`). Nothing is stated of the value.
#[verifier::external_body]
fn clock_now() -> std::time::SystemTime {
    std::time::SystemTime::now()
}

/// How long after the Unix epoch `t` lies (`SystemTime::duration_since` with
/// `UNIX_EPOCH`), or `None` when `t` lies before it. Nothing is stated of the
/// value: it depends on the clock reading `t`.
#[verifier::external_body]
fn since_epoch(t: &std::time::SystemTime) -> Option<std::time::Duration> {
    t.duration_since(std::time::UNIX_EPOCH).ok()
}

/// The whole seconds of a duration (`Duration::as_secs`). Nothing is stated
/// of the value: a duration is opaque here.
#[verifier::external_body]
fn whole_secs(d: &std::time::Duration) -> u64 {
    d.as_secs()
}

/// Unix seconds now, or 0 if the clock is before the epoch; the seconds are
/// taken as an `i64` by two's-complement wrapping.
fn now() -> i64 {
    let t = clock_now();
    match since_epoch(&t) {
        Some(d) => {
            let secs = whole_secs(&d);
            #[verifier::truncate]
            (secs as i64)
        },
        None => 0,
    }
}

proof fn lemma_map_of_lookup(v: Seq<(Seq<char>, Record)>, i: int)
    requires
        unique_keys(v),
        0 <= i < v.len(),
    ensures
        map_of(v).contains_key(v[i].0),
        map_of(v)[v[i].0] == v[i].1,
    decreases v.len(),
{
    if i < v.len() - 1 {
        let w = v.drop_last();
        assert(w[i] == v[i]);
        assert(unique_keys(w)) by {
            assert forall|a: int, b: int| 0 <= a < b < w.len() implies #[trigger] w[a].0 != #[trigger] w[b].0 by {
                assert(w[a] == v[a] && w[b] == v[b]);
            }
        }
        lemma_map_of_lookup(w, i);
        assert(v.last().0 != v[i].0);
    }
}

proof fn lemma_map_of_absent(v: Seq<(Seq<char>, Record)>, k: Seq<char>)
    requires
        forall|i: int| 0 <= i < v.len() ==> #[trigger] v[i].0 != k,
    ensures
        !map_of(v).contains_key(k),
    decreases v.len(),
{
    if v.len() > 0 {
        let w = v.drop_last();
        assert forall|i: int| 0 <= i < w.len() implies #[trigger] w[i].0 != k by {
            assert(w[i] == v[i]);
        }
        lemma_map_of_absent(w, k);
        assert(v[v.len() - 1].0 != k);
    }
}

proof fn lemma_map_of_update(v: Seq<(Seq<char>, Record)>, i: int, r: Record)
    requires
        unique_keys(v),
        0 <= i < v.len(),
    ensures
        map_of(v.update(i, (v[i].0, r))) == map_of(v).insert(v[i].0, r),
    decreases v.len(),
{
    let u = v.update(i, (v[i].0, r));
    if i == v.len() - 1 {
        assert(u.drop_last() == v.drop_last());
        let w = v.drop_last();
        assert forall|a: int| 0 <= a < w.len() implies #[trigger] w[a].0 != v[i].0 by {
            assert(w[a] == v[a]);
        }
        assert(map_of(u) == map_of(w).insert(v[i].0, r));
        assert(map_of(v) == map_of(w).insert(v[i].0, v[i].1));
        assert(map_of(u) =~= map_of(v).insert(v[i].0, r));
    } else {
        let w = v.drop_last();
        assert(unique_keys(w)) by {
            assert forall|a: int, b: int| 0 <= a < b < w.len() implies #[trigger] w[a].0 != #[trigger] w[b].0 by {
                assert(w[a] == v[a] && w[b] == v[b]);
            }
        }
        assert(w[i] == v[i]);
        lemma_map_of_update(w, i, r);
        assert(u.drop_last() == w.update(i, (w[i].0, r)));
        assert(u.last() == v.last());
        assert(v.last().0 != v[i].0);
        assert(map_of(u) =~= map_of(v).insert(v[i].0, r));
    }
}

impl Store {
    /// The (key, record) pairs of the store, in storage order.
    closed spec fn pairs(&self) -> Seq<(Seq<char>, Record)> {
        self.visits@.map_values(|v: Visit| (v.key@, v.record))
    }

    #[verifier::type_invariant]
    closed spec fn keys_unique(&self) -> bool {
        unique_keys(self.pairs())
    }

    /// What the store remembers: peer key -> usage record.
    pub closed spec fn records(&self) -> Map<Seq<char>, Record> {
        map_of(self.pairs())
    }

    /// An empty store.
    pub fn new() -> (r: Store)
        ensures
            r.records() == Map::<Seq<char>, Record>::empty(),
    {
        let r = Store { visits: Vec::new() };
        assert(r.pairs().len() == 0);
        r
    }

    /// Stores `record` under `key`, replacing what was there.
    pub fn insert(&mut self, key: String, record: Record)
        ensures
            final(self).records() == old(self).records().insert(key@, record),
    {
        proof {
            use_type_invariant(&*self);
        }
        let ghost before = self.pairs();
        let mut visits: Vec<Visit> = Vec::new();
        std::mem::swap(&mut visits, &mut self.visits);
        assert(visits@.map_values(|v: Visit| (v.key@, v.record)) == before);
        match self_find(&visits, key.as_str()) {
            Some(i) => {
                let ghost k = key@;
                visits.set(i, Visit { key, record });
                proof {
                    lemma_map_of_update(before, i as int, record);
                    assert(visits@.map_values(|v: Visit| (v.key@, v.record)) =~= before.update(
                        i as int,
                        (before[i as int].0, record),
                    ));
                }
            },
            None => {
                let ghost k = key@;
                visits.push(Visit { key, record });
                proof {
                    let after = visits@.map_values(|v: Visit| (v.key@, v.record));
                    assert(after =~= before.push((k, record)));
                    assert(after.drop_last() =~= before);
                }
            },
        }
        self.visits = visits;
    }

    /// The record of `id`, if the peer was ever jumped to.
    pub fn visit(&self, id: i64) -> (r: Option<Record>)
        ensures
            r == spec_visit(self.records(), id),
    {
        proof {
            use_type_invariant(&*self);
        }
        let key = decimal_string(id as i128);
        match self_find(&self.visits, key.as_str()) {
            Some(i) => {
                proof {
                    lemma_map_of_lookup(self.pairs(), i as int);
                }
                Some(self.visits[i].record)
            },
            None => {
                proof {
                    lemma_map_of_absent(self.pairs(), key@);
                }
                None
            },
        }
    }

    /// Record a jump to `id` made at Unix time `at`.
    pub fn bump_at(&mut self, id: i64, at: i64)
        ensures
            final(self).records() == spec_bump(old(self).records(), id, at),
    {
        let old_count = match self.visit(id) {
            Some(r) => r.count,
            None => 0,
        };
        let count = if old_count == u32::MAX {
            old_count
        } else {
            old_count + 1
        };
        self.insert(decimal_string(id as i128), Record { count, last: at });
    }

    /// Record a jump to `id` now. Saving the store is left to the caller.
    pub fn bump(&mut self, id: i64)
        ensures
            exists|at: i64| final(self).records() == spec_bump(old(self).records(), id, at),
    {
        let at = now();
        self.bump_at(id, at);
    }

    /// The stored (key, record) pairs, each key once.
    pub fn entries(&self) -> (r: Vec<(String, Record)>)
        ensures
            map_of(r@.map_values(|p: (String, Record)| (p.0@, p.1))) == self.records(),
            unique_keys(r@.map_values(|p: (String, Record)| (p.0@, p.1))),
    {
        proof {
            use_type_invariant(&*self);
        }
        let mut r: Vec<(String, Record)> = Vec::new();
        let n = self.visits.len();
        for i in 0..n
            invariant
                n == self.visits@.len(),
                r@.len() == i,
                forall|j: int|
                    0 <= j < i ==> (#[trigger] r@[j]).0@ == self.visits@[j].key@ && r@[j].1
                        == self.visits@[j].record,
        {
            r.push((self.visits[i].key.clone(), self.visits[i].record));
        }
        assert(r@.map_values(|p: (String, Record)| (p.0@, p.1)) =~= self.pairs());
        r
    }
}

fn self_find(visits: &Vec<Visit>, key: &str) -> (r: Option<usize>)
    ensures
        match r {
            Some(i) => i < visits@.len() && visits@[i as int].key@ == key@,
            None => forall|i: int| 0 <= i < visits@.len() ==> #[trigger] visits@[i].key@ != key@,
        },
{
    let n = visits.len();
    for i in 0..n
        invariant
            n == visits@.len(),
            forall|j: int| 0 <= j < i ==> #[trigger] visits@[j].key@ != key@,
    {
        if str_eq(visits[i].key.as_str(), key) {
            return Some(i);
        }
    }
    None
}

/// After a jump to `id`, its record counts one more visit (saturating) and
/// carries the jump time; every other peer's record is unchanged.
pub proof fn lemma_bump_then_visit(m: Map<Seq<char>, Record>, id: i64, other: i64, at: i64)
    ensures
        spec_visit(spec_bump(m, id, at), id) == Some(
            Record {
                count: next_count(
                    match spec_visit(m, id) {
                        Some(r) => r.count,
                        None => 0u32,
                    },
                ),
                last: at,
            },
        ),
        other != id ==> spec_visit(spec_bump(m, id, at), other) == spec_visit(m, other),
{
    if other != id && key_of(other) == key_of(id) {
        lemma_decimal_injective(other as int, id as int);
    }
}

/// A jump never lowers a peer's visit count.
pub proof fn lemma_bump_count_never_drops(m: Map<Seq<char>, Record>, id: i64, at: i64)
    ensures
        spec_visit(spec_bump(m, id, at), id).unwrap().count >= match spec_visit(m, id) {
            Some(r) => r.count,
            None => 0u32,
        },
{
}

} // verus!
