//! `record query`: the Record definitions of the enabled Packs, each with
//! its Pack and its current Record, narrowed by exact filters.
use vstd::prelude::*;
use crate::catalog::{enabled_packs, pack_definitions};
use crate::legacy_skills::{starts_with, starts_with_exec};
use crate::pack::PackModel;
use crate::record::{Record, RecordDefinition, RecordDefinitionModel, RecordKind, RecordModel};
use crate::commands::record_commands::RecordCommands;
use crate::error::RepositoryError;
use crate::repository::{Repository, RepositoryModel};
use crate::text::str_eq;

verus! {

/// The filters of a query; each one that is set must hold.
#[derive(Debug, Clone, PartialEq, Eq)]
pub struct QueryRecords {
    /// The definition's exact id.
    pub definition_id: Option<String>,
    /// The namespace of the definition's id: the part before its first `.`.
    pub namespace: Option<String>,
    /// The id of the Pack that supplies the definition.
    pub pack_id: Option<String>,
    pub kind: Option<RecordKind>,
    /// Whether a Record exists for the definition.
    pub has_value: Option<bool>,
}

/// One definition the query selected.
#[derive(Debug, Clone, PartialEq, Eq)]
pub struct RecordQueryEntry {
    pub pack_id: String,
    pub definition: RecordDefinition,
    pub record: Option<Record>,
}

/// The shape a definition gives its Record.
pub open spec fn definition_kind(d: RecordDefinitionModel) -> RecordKind {
    match d {
        RecordDefinitionModel::Scalar(_) => RecordKind::Scalar,
        RecordDefinitionModel::Collection(_) => RecordKind::Collection,
        RecordDefinitionModel::Event(_) => RecordKind::Event,
    }
}

/// The definitions of a sequence of Packs, each with its Pack's id.
pub open spec fn definitions_with_pack(ps: Seq<PackModel>) -> Seq<(String, RecordDefinitionModel)>
    decreases ps.len(),
{
    if ps.len() == 0 {
        Seq::empty()
    } else {
        definitions_with_pack(ps.drop_last()) + pack_pairs(ps.last())
    }
}

pub open spec fn pack_pairs(p: PackModel) -> Seq<(String, RecordDefinitionModel)> {
    pack_definitions(p).map_values(|d: RecordDefinitionModel| (p.manifest.id, d))
}

/// The query's filters all hold of a definition with its Pack.
pub open spec fn query_matches(m: RepositoryModel, q: QueryRecords, e: (String, RecordDefinitionModel)) -> bool {
    let id = e.1.id()@;
    &&& (q.definition_id matches Some(d) ==> id == d@)
    &&& (q.namespace matches Some(n) ==> starts_with(id, n@ + "."@))
    &&& (q.pack_id matches Some(p) ==> e.0@ == p@)
    &&& (q.kind matches Some(k) ==> definition_kind(e.1) == k)
    &&& (q.has_value matches Some(h) ==> (m.record(id) is Some) == h)
}

/// The definitions with their Packs that the query selects, in order.
pub open spec fn selected(m: RepositoryModel, q: QueryRecords, s: Seq<(String, RecordDefinitionModel)>) -> Seq<(String, RecordDefinitionModel)>
    decreases s.len(),
{
    if s.len() == 0 {
        Seq::empty()
    } else {
        selected(m, q, s.drop_last()) + if query_matches(m, q, s.last()) {
            seq![s.last()]
        } else {
            Seq::empty()
        }
    }
}

/// `r` is the entry for the definition `e`.
pub open spec fn entry_for(m: RepositoryModel, r: RecordQueryEntry, e: (String, RecordDefinitionModel)) -> bool {
    &&& r.pack_id == e.0
    &&& r.definition@ == e.1
    &&& match r.record {
        Some(rec) => m.record(e.1.id()@) == Some(rec@),
        None => m.record(e.1.id()@) is None,
    }
}

pub open spec fn entries_for(m: RepositoryModel, r: Seq<RecordQueryEntry>, s: Seq<(String, RecordDefinitionModel)>) -> bool {
    &&& r.len() == s.len()
    &&& forall|i: int| 0 <= i < r.len() ==> entry_for(m, #[trigger] r[i], s[i])
}

impl Repository {
    fn query_matches_exec(&self, q: &QueryRecords, pack_id: &String, d: &RecordDefinition) -> (r: bool)
        ensures
            r == query_matches(self@, *q, (*pack_id, d@)),
    {
        let id = d.id().as_str();
        proof { assert(d@.id()@ == id@); }
        match &q.definition_id {
            Some(want) => {
                if !str_eq(id, want.as_str()) {
                    return false;
                }
            },
            None => {},
        }
        match &q.namespace {
            Some(ns) => {
                let mut prefix = ns.clone();
                prefix.append(".");
                if !starts_with_exec(id, prefix.as_str()) {
                    return false;
                }
            },
            None => {},
        }
        match &q.pack_id {
            Some(p) => {
                if !str_eq(pack_id.as_str(), p.as_str()) {
                    return false;
                }
            },
            None => {},
        }
        match q.kind {
            Some(k) => {
                let dk = match d {
                    RecordDefinition::Scalar(_) => RecordKind::Scalar,
                    RecordDefinition::Collection(_) => RecordKind::Collection,
                    RecordDefinition::Event(_) => RecordKind::Event,
                };
                if dk != k {
                    return false;
                }
            },
            None => {},
        }
        match q.has_value {
            Some(h) => {
                let found = self.find_record(id);
                proof {
                    if found is Some {
                        assert(self@.record(id@) is Some);
                    }
                }
                if found.is_some() != h {
                    return false;
                }
            },
            None => {},
        }
        true
    }

    fn query_entry(&self, pack_id: &String, d: &RecordDefinition) -> (r: RecordQueryEntry)
        ensures
            entry_for(self@, r, (*pack_id, d@)),
    {
        let id = d.id().as_str();
        proof { assert(d@.id()@ == id@); }
        let record = match self.find_record(id) {
            Some(i) => {
                proof { assert(self@.records[i as int] == self.records@[i as int]@); }
                Some(self.records[i].copied())
            },
            None => None,
        };
        RecordQueryEntry { pack_id: pack_id.clone(), definition: d.copied(), record }
    }

    /// `RecordCommands::query`: each definition of the enabled Packs, in
    /// enabled-Pack order, that the filters select, with its Pack and its
    /// current Record.
    pub fn query_records(&self, q: &QueryRecords) -> (r: Vec<RecordQueryEntry>)
        ensures
            entries_for(self@, r@, selected(self@, *q, definitions_with_pack(enabled_packs(self@)))),
    {
        let positions = self.enabled_pack_positions();
        let ghost ps = enabled_packs(self@);
        let mut out: Vec<RecordQueryEntry> = Vec::new();
        let mut k: usize = 0;
        proof { assert(definitions_with_pack(ps.take(0)) =~= Seq::<(String, RecordDefinitionModel)>::empty()); }
        while k < positions.len()
            invariant
                positions@.len() == ps.len(),
                ps == enabled_packs(self@),
                forall|j: int| 0 <= j < positions@.len() ==> (#[trigger] positions@[j]) < self.packs@.len()
                    && self@.packs[positions@[j] as int] == ps[j],
                k <= positions@.len(),
                entries_for(self@, out@, selected(self@, *q, definitions_with_pack(ps.take(k as int)))),
            decreases positions.len() - k,
        {
            let pack = &self.packs[positions[k]];
            let ghost before = definitions_with_pack(ps.take(k as int));
            proof {
                assert(ps.take(k + 1).drop_last() =~= ps.take(k as int));
                assert(ps.take(k + 1).last() == ps[k as int]);
                assert(pack@ == ps[k as int]);
            }
            let ghost pairs = pack_pairs(ps[k as int]);
            match &pack.record_definitions {
                Some(file) => {
                    let mut d: usize = 0;
                    proof { assert(before + pairs.take(0) =~= before); }
                    while d < file.definitions.len()
                        invariant
                            d <= file.definitions@.len(),
                            pack@ == ps[k as int],
                            pack.record_definitions == Some(*file),
                            pairs == pack_pairs(ps[k as int]),
                            pairs.len() == file.definitions@.len(),
                            forall|j: int| 0 <= j < pairs.len() ==> #[trigger] pairs[j] == (pack.manifest.id, file.definitions@[j]@),
                            entries_for(self@, out@, selected(self@, *q, before + pairs.take(d as int))),
                        decreases file.definitions.len() - d,
                    {
                        let def = &file.definitions[d];
                        let ghost s = before + pairs.take(d as int);
                        let ghost s1 = before + pairs.take(d + 1);
                        proof {
                            assert(s1.drop_last() =~= s);
                            assert(s1.last() == pairs[d as int]);
                            assert(pairs[d as int] == (pack.manifest.id, def@));
                        }
                        if self.query_matches_exec(q, &pack.manifest.id, def) {
                            let e = self.query_entry(&pack.manifest.id, def);
                            let ghost old_out = out@;
                            out.push(e);
                            proof {
                                assert(selected(self@, *q, s1) == selected(self@, *q, s) + seq![s1.last()]);
                                assert forall|i: int| 0 <= i < out@.len() implies entry_for(self@, #[trigger] out@[i], selected(self@, *q, s1)[i]) by {
                                    if i < old_out.len() {
                                        assert(out@[i] == old_out[i]);
                                    }
                                }
                            }
                        } else {
                            proof { assert(selected(self@, *q, s1) =~= selected(self@, *q, s)); }
                        }
                        d = d + 1;
                    }
                    proof {
                        assert(pairs.take(pairs.len() as int) =~= pairs);
                        assert(definitions_with_pack(ps.take(k + 1)) =~= before + pairs);
                    }
                },
                None => {
                    proof {
                        assert(pairs =~= Seq::<(String, RecordDefinitionModel)>::empty());
                        assert(definitions_with_pack(ps.take(k + 1)) =~= before);
                    }
                },
            }
            k = k + 1;
        }
        proof { assert(ps.take(ps.len() as int) =~= ps); }
        out
    }
}

impl<'repository> RecordCommands<'repository> {
    /// The entries the filters select; reading never fails.
    pub fn query(&self, query: QueryRecords) -> (r: Result<Vec<RecordQueryEntry>, RepositoryError>)
        ensures
            r matches Ok(entries) && entries_for(
                old(self.repository)@,
                entries@,
                selected(old(self.repository)@, query, definitions_with_pack(enabled_packs(old(self.repository)@))),
            ),
    {
        Ok(self.repository.query_records(&query))
    }
}

} // verus!
