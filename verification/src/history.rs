//! The frecency store: a key-to-record table whose only mutation is an
//! associative, commutative merge, so that concurrent writers never need a
//! read-modify-write cycle. One merge call records exactly one use event:
//! the prior record's count goes up by one and its timestamp is kept, while
//! the operand's fields beyond its presence are ignored; with no prior
//! record the operand is stored verbatim.

use vstd::prelude::*;
use crate::entry::{AppEntry, EntryModel};
use crate::codec::{decode_entry, encode_entry, spec_encode_entry, spec_parse_entry};

verus! {

/// A use count bumped by one, saturating at the type's maximum.
pub open spec fn sat_inc(c: u32) -> u32 {
    if c < 0xffff_ffffu32 {
        (c + 1) as u32
    } else {
        c
    }
}

/// The merge operator at the model level: no prior value means the operand
/// is stored verbatim; a prior value keeps its own fields with the count
/// bumped by one.
pub open spec fn spec_merge_model(prior: Option<EntryModel>, operand: EntryModel) -> EntryModel {
    match prior {
        Option::None => operand,
        Option::Some(p) => EntryModel {
            name: p.name,
            use_count: sat_inc(p.use_count),
            last_use_time: p.last_use_time,
            kind: p.kind,
        },
    }
}

/// Applying the merges of two concurrent writers in either order yields
/// the same final use count, provided the two operands carry the same
/// (ignored) count field — as they do under the calling convention, where
/// every writer submits a count of one.
pub proof fn lemma_merge_use_count_commutes(r1: EntryModel, r2: EntryModel)
    requires
        r1.use_count == r2.use_count,
    ensures
        spec_merge_model(Some(spec_merge_model(None, r1)), r2).use_count == spec_merge_model(
            Some(spec_merge_model(None, r2)),
            r1,
        ).use_count,
{
}

/// A prior record merged with one more use event.
pub open spec fn bumped(p: AppEntry) -> AppEntry {
    (AppEntry {
        name: p.name,
        use_count: sat_inc(p.use_count),
        last_use_time: p.last_use_time,
        kind: p.kind,
    })
}

/// The in-memory table and the encoded form merge the same way.
pub proof fn lemma_bumped_matches_model(p: AppEntry, operand: AppEntry)
    ensures
        bumped(p)@ == spec_merge_model(Some(p@), operand@),
{
}

/// Merge one operand into an optional prior record.
pub fn merge_record(prior: Option<&AppEntry>, operand: AppEntry) -> (r: AppEntry)
    ensures
        r@ == spec_merge_model(
            match prior {
                Option::Some(p) => Some(p@),
                Option::None => None,
            },
            operand@,
        ),
{
    match prior {
        None => operand,
        Some(p) => AppEntry {
            name: p.name.clone(),
            use_count: if p.use_count < 0xffff_ffffu32 {
                p.use_count + 1
            } else {
                p.use_count
            },
            last_use_time: p.last_use_time,
            kind: p.kind.clone(),
        },
    }
}

/// The model of an optional in-memory record.
pub open spec fn opt_model(o: Option<AppEntry>) -> Option<EntryModel> {
    match o {
        Option::Some(e) => Some(e@),
        Option::None => None,
    }
}

/// The merge operator folded over encoded operands: each decodable operand
/// is merged in order; bytes that decode to no record are ignored.
pub open spec fn spec_merge_fold(acc: Option<EntryModel>, ops: Seq<Seq<u8>>) -> Option<EntryModel>
    decreases ops.len(),
{
    if ops.len() == 0 {
        acc
    } else {
        let acc2 = match spec_parse_entry(ops[0]) {
            Option::Some(rec) => Some(spec_merge_model(acc, rec)),
            Option::None => acc,
        };
        spec_merge_fold(acc2, ops.drop_first())
    }
}

/// The merge operator over encoded values, shaped the way an embedded
/// key-value store hands it to its merge callback: the stored prior value,
/// if any, and the pending operands in arrival order.
pub fn merge_history(old_value: Option<&Vec<u8>>, operands: &Vec<Vec<u8>>) -> (r: Option<Vec<u8>>)
    ensures
        match spec_merge_fold(
            match old_value {
                Option::Some(b) => spec_parse_entry(b@),
                Option::None => None,
            },
            operands@.map_values(|v: Vec<u8>| v@),
        ) {
            Option::Some(m) => r matches Some(v) && v@ == spec_encode_entry(m),
            Option::None => r is None,
        },
{
    let ghost all: Seq<Seq<u8>> = operands@.map_values(|v: Vec<u8>| v@);
    let ghost init: Option<EntryModel> = match old_value {
        Option::Some(b) => spec_parse_entry(b@),
        Option::None => None,
    };
    let mut acc: Option<AppEntry> = match old_value {
        Some(b) => decode_entry(b),
        None => None,
    };
    proof {
        assert(all.skip(0) =~= all);
        assert(opt_model(acc) == init);
    }
    let mut i: usize = 0;
    while i < operands.len()
        invariant
            0 <= i <= operands@.len(),
            all == operands@.map_values(|v: Vec<u8>| v@),
            spec_merge_fold(opt_model(acc), all.skip(i as int)) == spec_merge_fold(init, all),
        decreases operands@.len() - i,
    {
        proof {
            assert(all.skip(i as int).drop_first() =~= all.skip(i + 1));
            assert(all.skip(i as int)[0] == operands@[i as int]@);
        }
        match decode_entry(&operands[i]) {
            Some(rec) => {
                acc = Some(merge_record(acc.as_ref(), rec));
            },
            None => {},
        }
        i = i + 1;
    }
    proof {
        assert(all.skip(i as int) =~= Seq::<Seq<u8>>::empty());
    }
    match acc {
        Some(e) => Some(encode_entry(&e)),
        None => None,
    }
}

/// No two records share a key.
pub open spec fn unique_names(s: Seq<AppEntry>) -> bool {
    forall|i: int, j: int| 0 <= i < j < s.len() ==> s[i].name@ != s[j].name@
}

/// True when some record in `s` has key `name`.
pub open spec fn contains_name(s: Seq<AppEntry>, name: Seq<char>) -> bool {
    exists|i: int| 0 <= i < s.len() && s[i].name@ == name
}

/// The index of the record with key `name`; the index is unique when the
/// keys of `s` are unique.
pub open spec fn index_of_name(s: Seq<AppEntry>, name: Seq<char>) -> int {
    choose|i: int| 0 <= i < s.len() && s[i].name@ == name
}

/// With unique keys, a record's position is the index of its name.
pub proof fn lemma_index_of_name(s: Seq<AppEntry>, name: Seq<char>, i: int)
    requires
        unique_names(s),
        0 <= i < s.len(),
        s[i].name@ == name,
    ensures
        contains_name(s, name),
        index_of_name(s, name) == i,
{
    assert(contains_name(s, name));
    let j = index_of_name(s, name);
    if j != i {
        assert(s[i].name@ != s[j].name@);
    }
}

/// The usage table, keyed by entry name. This is the in-memory form of the
/// store; an embedding that persists it applies [`merge_history`] as the
/// store-level merge operator so that both forms merge identically.
pub struct FrecencyStore {
    pub records: Vec<AppEntry>,
}

impl FrecencyStore {
    /// Keys are unique within the store.
    pub open spec fn wf(self) -> bool {
        unique_names(self.records@)
    }

    /// An empty store.
    pub fn new() -> (r: Self)
        ensures
            r.records@ == Seq::<AppEntry>::empty(),
            r.wf(),
    {
        FrecencyStore { records: Vec::new() }
    }

    /// The only mutation: merge one use event under `record.name`. With no
    /// prior record the operand is stored verbatim; otherwise the prior
    /// record keeps its fields with the count bumped by one.
    pub fn merge(&mut self, record: AppEntry)
        requires
            old(self).wf(),
        ensures
            final(self).wf(),
            contains_name(old(self).records@, record.name@) ==> final(self).records@ == old(
                self,
            ).records@.update(
                index_of_name(old(self).records@, record.name@),
                bumped(old(self).records@[index_of_name(old(self).records@, record.name@)]),
            ),
            !contains_name(old(self).records@, record.name@) ==> final(self).records@ == old(
                self,
            ).records@.push(record),
    {
        let n = self.records.len();
        let mut i: usize = 0;
        while i < n
            invariant
                *self == *old(self),
                old(self).wf(),
                n == self.records@.len(),
                0 <= i <= n,
                forall|k: int| 0 <= k < i ==> self.records@[k].name@ != record.name@,
            decreases n - i,
        {
            if self.records[i].name.eq(&record.name) {
                let prior = &self.records[i];
                let merged = AppEntry {
                    name: prior.name.clone(),
                    use_count: if prior.use_count < 0xffff_ffffu32 {
                        prior.use_count + 1
                    } else {
                        prior.use_count
                    },
                    last_use_time: prior.last_use_time,
                    kind: prior.kind.clone(),
                };
                proof {
                    lemma_index_of_name(self.records@, record.name@, i as int);
                }
                self.records[i] = merged;
                proof {
                    assert forall|a: int, b: int|
                        0 <= a < b < self.records@.len() implies self.records@[a].name@
                        != self.records@[b].name@ by {
                        assert(old(self).records@[a].name@ != old(self).records@[b].name@);
                    }
                }
                return ;
            }
            i = i + 1;
        }
        self.records.push(record);
        proof {
            assert forall|a: int, b: int|
                0 <= a < b < self.records@.len() implies self.records@[a].name@
                != self.records@[b].name@ by {
                if b < self.records@.len() - 1 {
                    assert(old(self).records@[a].name@ != old(self).records@[b].name@);
                }
            }
        }
    }

    /// Remove the record under `name`; no-op when the key is absent.
    pub fn delete(&mut self, name: &str)
        requires
            old(self).wf(),
        ensures
            final(self).wf(),
            contains_name(old(self).records@, name@) ==> final(self).records@ == old(
                self,
            ).records@.remove(index_of_name(old(self).records@, name@)),
            !contains_name(old(self).records@, name@) ==> final(self).records@ == old(
                self,
            ).records@,
    {
        let n = self.records.len();
        let mut i: usize = 0;
        while i < n
            invariant
                *self == *old(self),
                old(self).wf(),
                n == self.records@.len(),
                0 <= i <= n,
                forall|k: int| 0 <= k < i ==> self.records@[k].name@ != name@,
            decreases n - i,
        {
            if self.records[i].exact_match(name) {
                proof {
                    lemma_index_of_name(self.records@, name@, i as int);
                }
                self.records.remove(i);
                proof {
                    let s = old(self).records@;
                    let ii = i as int;
                    assert forall|a: int, b: int|
                        0 <= a < b < self.records@.len() implies self.records@[a].name@
                        != self.records@[b].name@ by {
                        let a2: int = if a < ii {
                            a
                        } else {
                            a + 1
                        };
                        let b2: int = if b < ii {
                            b
                        } else {
                            b + 1
                        };
                        assert(self.records@[a] == s[a2]);
                        assert(self.records@[b] == s[b2]);
                        assert(s[a2].name@ != s[b2].name@);
                    }
                }
                return ;
            }
            i = i + 1;
        }
    }

    /// A full snapshot of the records, in store order.
    pub fn iterate(&self) -> (r: Vec<AppEntry>)
        ensures
            r@ == self.records@,
    {
        let mut r: Vec<AppEntry> = Vec::new();
        let mut i: usize = 0;
        while i < self.records.len()
            invariant
                0 <= i <= self.records@.len(),
                r@ == self.records@.subrange(0, i as int),
            decreases self.records@.len() - i,
        {
            r.push(self.records[i].clone());
            proof {
                assert(r@ =~= self.records@.subrange(0, i + 1));
            }
            i = i + 1;
        }
        proof {
            assert(r@ =~= self.records@);
        }
        r
    }

    /// The record under `name`, if any.
    pub fn lookup(&self, name: &str) -> (r: Option<AppEntry>)
        requires
            self.wf(),
        ensures
            match r {
                Some(e) => contains_name(self.records@, name@) && e == self.records@[index_of_name(
                    self.records@,
                    name@,
                )],
                None => !contains_name(self.records@, name@),
            },
    {
        let n = self.records.len();
        let mut i: usize = 0;
        while i < n
            invariant
                n == self.records@.len(),
                0 <= i <= n,
                unique_names(self.records@),
                forall|k: int| 0 <= k < i ==> self.records@[k].name@ != name@,
            decreases n - i,
        {
            if self.records[i].exact_match(name) {
                proof {
                    lemma_index_of_name(self.records@, name@, i as int);
                }
                return Some(self.records[i].clone());
            }
            i = i + 1;
        }
        None
    }

    /// How many records the store holds.
    pub fn len(&self) -> (r: usize)
        ensures
            r == self.records@.len(),
    {
        self.records.len()
    }
}

} // verus!
