//! Storing Packs: Packs kept in identifier order, the forest of parent links
//! between them, and the enabled Pack identifiers kept in order.
use vstd::prelude::*;
use crate::catalog::{pack_definitions, registry_definition};
use crate::commands::pack_commands::{pack_valid, validate_pack};
use crate::error::{RepositoryError, RepositoryErrorCode, RepositoryResult, ValidationIssue};
use crate::pack::{Pack, PackModel};
use crate::repository::{name_is, names_model, pack_is, packs_model, Repository, RepositoryModel};
use crate::seqs::{first_match, is_first_match, lemma_first_match_is, lemma_first_match_none};
use crate::text::{concat3, seq_lt, str_eq, str_lt};

verus! {

// ---------------------------------------------------------------------------
// Ordered insertion
// ---------------------------------------------------------------------------

pub open spec fn pack_sorts_after(id: Seq<char>) -> spec_fn(PackModel) -> bool {
    |q: PackModel| seq_lt(id, q.manifest.id@)
}

pub open spec fn name_sorts_after(id: Seq<char>) -> spec_fn(Seq<char>) -> bool {
    |s: Seq<char>| seq_lt(id, s)
}

/// The Packs after storing `p`: it replaces the Pack with its identifier, or
/// goes before the first Pack whose identifier sorts after its own.
pub open spec fn packs_with(packs: Seq<PackModel>, p: PackModel) -> Seq<PackModel> {
    match first_match(packs, pack_is(p.manifest.id@)) {
        Some(i) => packs.update(i, p),
        None => match first_match(packs, pack_sorts_after(p.manifest.id@)) {
            Some(j) => packs.insert(j, p),
            None => packs.push(p),
        },
    }
}

/// The enabled identifiers after enabling `id`: it goes before the first
/// identifier that sorts after it.
pub open spec fn ids_with(ids: Seq<Seq<char>>, id: Seq<char>) -> Seq<Seq<char>> {
    match first_match(ids, name_is(id)) {
        Some(_) => ids,
        None => match first_match(ids, name_sorts_after(id)) {
            Some(j) => ids.insert(j, id),
            None => ids.push(id),
        },
    }
}

/// The enabled identifiers after disabling `id`.
pub open spec fn ids_without(ids: Seq<Seq<char>>, id: Seq<char>) -> Seq<Seq<char>> {
    match first_match(ids, name_is(id)) {
        Some(i) => ids.remove(i),
        None => ids,
    }
}

/// Identifiers in strictly increasing order.
pub open spec fn ids_sorted(ids: Seq<Seq<char>>) -> bool {
    forall|i: int, j: int| 0 <= i < j < ids.len() ==> seq_lt(#[trigger] ids[i], #[trigger] ids[j])
}

/// Packs in strictly increasing identifier order.
pub open spec fn packs_sorted(packs: Seq<PackModel>) -> bool {
    forall|i: int, j: int| 0 <= i < j < packs.len()
        ==> seq_lt((#[trigger] packs[i]).manifest.id@, (#[trigger] packs[j]).manifest.id@)
}

// ---------------------------------------------------------------------------
// The forest of parent links
// ---------------------------------------------------------------------------

/// The parent identifier of the installed Pack `id`, if it has one.
pub open spec fn parent_of(packs: Seq<PackModel>, id: Seq<char>) -> Option<Seq<char>> {
    match first_match(packs, pack_is(id)) {
        Some(i) => match packs[i].manifest.parent_pack_id {
            Some(p) => Some(p@),
            None => None,
        },
        None => None,
    }
}

/// The identifier reached from `id` by following `n` parent links.
pub open spec fn ancestor(packs: Seq<PackModel>, id: Seq<char>, n: nat) -> Option<Seq<char>>
    decreases n,
{
    if n == 0 {
        Some(id)
    } else {
        match ancestor(packs, id, (n - 1) as nat) {
            Some(a) => parent_of(packs, a),
            None => None,
        }
    }
}

/// The installed Pack `packs[k]` lies on a cycle of parent links.
pub open spec fn on_cycle(packs: Seq<PackModel>, k: int) -> bool {
    exists|n: nat| 1 <= n <= packs.len()
        && #[trigger] ancestor(packs, packs[k].manifest.id@, n) == Some(packs[k].manifest.id@)
}

/// Parent links form a forest: no Pack is its own ancestor.
pub open spec fn forest_valid(packs: Seq<PackModel>) -> bool {
    forall|k: int| 0 <= k < packs.len() ==> !#[trigger] on_cycle(packs, k)
}

/// A Pack's parent that is not installed.
pub open spec fn missing_parent(packs: Seq<PackModel>, p: PackModel) -> Option<String> {
    match p.manifest.parent_pack_id {
        Some(parent) => if first_match(packs, pack_is(parent@)) is None { Some(parent) } else { None },
        None => None,
    }
}

// ---------------------------------------------------------------------------
// Storing rules
// ---------------------------------------------------------------------------

/// Storing a Pack: it must be valid, and the Packs must still form a forest.
pub open spec fn put_pack_ok(m: RepositoryModel, p: PackModel) -> bool {
    pack_valid(p) && forest_valid(packs_with(m.packs, p))
}

/// Enabling a Pack conflicts when an enabled Pack already supplies one of its
/// Record definition identifiers.
pub open spec fn enable_conflict(m: RepositoryModel, p: PackModel) -> bool {
    exists|k: int| 0 <= k < pack_definitions(p).len()
        && registry_definition(m, (#[trigger] pack_definitions(p)[k]).id()@) is Some
}

pub fn find_pack_in(packs: &Vec<Pack>, id: &str) -> (r: Option<usize>)
    ensures
        r matches Some(i) ==> first_match(packs_model(packs@), pack_is(id@)) == Some(i as int) && i < packs@.len(),
        r is None ==> first_match(packs_model(packs@), pack_is(id@)) is None,
{
    let ghost m = packs_model(packs@);
    let mut i: usize = 0;
    while i < packs.len()
        invariant
            i <= packs@.len(),
            m == packs_model(packs@),
            forall|j: int| 0 <= j < i ==> !pack_is(id@)(#[trigger] m[j]),
        decreases packs.len() - i,
    {
        if str_eq(packs[i].manifest.id.as_str(), id) {
            proof {
                assert(is_first_match(m, pack_is(id@), i as int));
                lemma_first_match_is(m, pack_is(id@), i as int);
            }
            return Some(i);
        }
        i = i + 1;
    }
    proof {
        lemma_first_match_none(m, pack_is(id@));
    }
    None
}

pub fn find_pack_slot(packs: &Vec<Pack>, id: &str) -> (r: Option<usize>)
    ensures
        r matches Some(i) ==> first_match(packs_model(packs@), pack_sorts_after(id@)) == Some(i as int) && i < packs@.len(),
        r is None ==> first_match(packs_model(packs@), pack_sorts_after(id@)) is None,
{
    let ghost m = packs_model(packs@);
    let mut i: usize = 0;
    while i < packs.len()
        invariant
            i <= packs@.len(),
            m == packs_model(packs@),
            forall|j: int| 0 <= j < i ==> !pack_sorts_after(id@)(#[trigger] m[j]),
        decreases packs.len() - i,
    {
        if str_lt(id, packs[i].manifest.id.as_str()) {
            proof {
                assert(is_first_match(m, pack_sorts_after(id@), i as int));
                lemma_first_match_is(m, pack_sorts_after(id@), i as int);
            }
            return Some(i);
        }
        i = i + 1;
    }
    proof {
        lemma_first_match_none(m, pack_sorts_after(id@));
    }
    None
}

fn find_name(ids: &Vec<String>, id: &str) -> (r: Option<usize>)
    ensures
        r matches Some(i) ==> first_match(names_model(ids@), name_is(id@)) == Some(i as int) && i < ids@.len(),
        r is None ==> first_match(names_model(ids@), name_is(id@)) is None,
{
    let ghost m = names_model(ids@);
    let mut i: usize = 0;
    while i < ids.len()
        invariant
            i <= ids@.len(),
            m == names_model(ids@),
            forall|j: int| 0 <= j < i ==> !name_is(id@)(#[trigger] m[j]),
        decreases ids.len() - i,
    {
        proof { assert(m[i as int] == ids@[i as int]@); }
        if str_eq(ids[i].as_str(), id) {
            proof {
                assert(is_first_match(m, name_is(id@), i as int));
                lemma_first_match_is(m, name_is(id@), i as int);
            }
            return Some(i);
        }
        i = i + 1;
    }
    proof {
        lemma_first_match_none(m, name_is(id@));
    }
    None
}

fn find_name_slot(ids: &Vec<String>, id: &str) -> (r: Option<usize>)
    ensures
        r matches Some(i) ==> first_match(names_model(ids@), name_sorts_after(id@)) == Some(i as int) && i < ids@.len(),
        r is None ==> first_match(names_model(ids@), name_sorts_after(id@)) is None,
{
    let ghost m = names_model(ids@);
    let mut i: usize = 0;
    while i < ids.len()
        invariant
            i <= ids@.len(),
            m == names_model(ids@),
            forall|j: int| 0 <= j < i ==> !name_sorts_after(id@)(#[trigger] m[j]),
        decreases ids.len() - i,
    {
        proof { assert(m[i as int] == ids@[i as int]@); }
        if str_lt(id, ids[i].as_str()) {
            proof {
                assert(is_first_match(m, name_sorts_after(id@), i as int));
                lemma_first_match_is(m, name_sorts_after(id@), i as int);
            }
            return Some(i);
        }
        i = i + 1;
    }
    proof {
        lemma_first_match_none(m, name_sorts_after(id@));
    }
    None
}

fn parent_of_exec(packs: &Vec<Pack>, id: &str) -> (r: Option<String>)
    ensures
        r matches Some(s) ==> parent_of(packs_model(packs@), id@) == Some(s@),
        r is None ==> parent_of(packs_model(packs@), id@) is None,
{
    match find_pack_in(packs, id) {
        Some(i) => {
            proof { assert(packs_model(packs@)[i as int] == packs@[i as int]@); }
            match &packs[i].manifest.parent_pack_id {
                Some(p) => Some(p.clone()),
                None => None,
            }
        }
        None => None,
    }
}

/// Whether `packs[k]` lies on a cycle of parent links.
fn pack_on_cycle(packs: &Vec<Pack>, k: usize) -> (r: bool)
    requires
        k < packs@.len(),
    ensures
        r == on_cycle(packs_model(packs@), k as int),
{
    let ghost m = packs_model(packs@);
    let start = &packs[k].manifest.id;
    proof { assert(m[k as int].manifest.id@ == start@); }
    let mut current: Option<String> = Some(start.clone());
    let mut n: usize = 0;
    while n < packs.len()
        invariant
            n <= packs@.len(),
            m == packs_model(packs@),
            start@ == m[k as int].manifest.id@,
            match current {
                Some(c) => ancestor(m, start@, n as nat) == Some(c@),
                None => ancestor(m, start@, n as nat) is None,
            },
            forall|j: nat| 1 <= j <= n ==> #[trigger] ancestor(m, start@, j) != Some(start@),
        decreases packs.len() - n,
    {
        let next = match &current {
            Some(c) => parent_of_exec(packs, c.as_str()),
            None => None,
        };
        n = n + 1;
        proof {
            assert(ancestor(m, start@, n as nat) == match ancestor(m, start@, (n - 1) as nat) {
                Some(a) => parent_of(m, a),
                None => None,
            });
        }
        match &next {
            Some(c) => {
                if str_eq(c.as_str(), start.as_str()) {
                    proof { assert(ancestor(m, m[k as int].manifest.id@, n as nat) == Some(m[k as int].manifest.id@)); }
                    return true;
                }
            }
            None => {}
        }
        current = next;
    }
    proof {
        assert forall|j: nat| 1 <= j <= m.len() implies #[trigger] ancestor(m, m[k as int].manifest.id@, j) != Some(m[k as int].manifest.id@) by {}
    }
    false
}

/// Whether parent links form a forest.
pub fn forest_check(packs: &Vec<Pack>) -> (r: bool)
    ensures
        r == forest_valid(packs_model(packs@)),
{
    let mut k: usize = 0;
    while k < packs.len()
        invariant
            k <= packs@.len(),
            forall|j: int| 0 <= j < k ==> !#[trigger] on_cycle(packs_model(packs@), j),
        decreases packs.len() - k,
    {
        if pack_on_cycle(packs, k) {
            return false;
        }
        k = k + 1;
    }
    true
}

pub fn cycle_error() -> (r: RepositoryError)
    ensures
        r.code == RepositoryErrorCode::ValidationFailed,
{
    let issue = ValidationIssue {
        code: String::from_str("pack_parent_cycle"),
        path: String::from_str("manifest.parent_pack_id"),
        message: String::from_str("Pack parents must not form a cycle"),
    };
    let mut issues = Vec::new();
    issues.push(issue);
    RepositoryError::validation(issues, String::from_str("Pack parents must not form a cycle"))
}

/// The missing parent of a Pack, computed against `packs`.
pub fn missing_parent_exec(packs: &Vec<Pack>, p: &Pack) -> (r: Option<String>)
    ensures
        r == missing_parent(packs_model(packs@), p@),
{
    match &p.manifest.parent_pack_id {
        Some(parent) => match find_pack_in(packs, parent.as_str()) {
            Some(_) => None,
            None => Some(parent.clone()),
        },
        None => None,
    }
}

/// A copy of every Pack.
pub fn copy_packs(v: &Vec<Pack>) -> (r: Vec<Pack>)
    ensures
        packs_model(r@) == packs_model(v@),
{
    let mut out: Vec<Pack> = Vec::new();
    let mut i: usize = 0;
    while i < v.len()
        invariant
            i <= v@.len(),
            out@.len() == i,
            forall|k: int| 0 <= k < i ==> (#[trigger] out@[k])@ == v@[k]@,
        decreases v.len() - i,
    {
        out.push(v[i].copied());
        i = i + 1;
    }
    assert(packs_model(out@) =~= packs_model(v@));
    out
}

/// The Packs as they would be after storing `p`, leaving `packs` as it is.
pub fn packs_with_exec(packs: &Vec<Pack>, p: &Pack) -> (r: Vec<Pack>)
    ensures
        packs_model(r@) == packs_with(packs_model(packs@), p@),
{
    let mut out = copy_packs(packs);
    let ghost target = packs_with(packs_model(packs@), p@);
    match find_pack_in(&out, p.manifest.id.as_str()) {
        Some(i) => {
            out.set(i, p.copied());
        }
        None => match find_pack_slot(&out, p.manifest.id.as_str()) {
            Some(j) => {
                out.insert(j, p.copied());
            }
            None => {
                out.push(p.copied());
            }
        },
    }
    assert(packs_model(out@) =~= target);
    out
}

impl Repository {
    /// Store a Pack: replace the installed Pack with its identifier or insert
    /// it in identifier order.  A Pack that breaks the Pack rules, or whose
    /// parent links would form a cycle, is refused and nothing changes.
    pub fn put_pack(&mut self, pack: Pack) -> (r: RepositoryResult<()>)
        ensures
            put_pack_ok(old(self)@, pack@) ==> (r is Ok && final(self)@ == (RepositoryModel {
                packs: packs_with(old(self)@.packs, pack@),
                ..old(self)@
            })),
            !put_pack_ok(old(self)@, pack@) ==> (r matches Err(e)
                && e.code == RepositoryErrorCode::ValidationFailed
                && final(self)@ == old(self)@),
    {
        match validate_pack(&pack) {
            Err(e) => return Err(e),
            Ok(()) => {}
        }
        let ghost before = self.packs@;
        let ghost target = packs_with(old(self)@.packs, pack@);
        match find_pack_in(&self.packs, pack.manifest.id.as_str()) {
            Some(i) => {
                let previous = self.packs[i].copied();
                self.packs.set(i, pack);
                proof { assert(packs_model(self.packs@) =~= target); }
                if !forest_check(&self.packs) {
                    self.packs.set(i, previous);
                    proof { assert(packs_model(self.packs@) =~= packs_model(before)); }
                    return Err(cycle_error());
                }
                Ok(())
            }
            None => {
                match find_pack_slot(&self.packs, pack.manifest.id.as_str()) {
                    Some(j) => {
                        self.packs.insert(j, pack);
                        proof { assert(packs_model(self.packs@) =~= target); }
                        if !forest_check(&self.packs) {
                            let _ = self.packs.remove(j);
                            proof { assert(self.packs@ =~= before); }
                            return Err(cycle_error());
                        }
                        Ok(())
                    }
                    None => {
                        self.packs.push(pack);
                        proof { assert(packs_model(self.packs@) =~= target); }
                        if !forest_check(&self.packs) {
                            let _ = self.packs.pop();
                            proof { assert(self.packs@ =~= before); }
                            return Err(cycle_error());
                        }
                        Ok(())
                    }
                }
            }
        }
    }

    /// Enable or disable an installed Pack.  Enabling a Pack that would supply
    /// a Record definition identifier another enabled Pack already supplies
    /// is refused; enabling an enabled Pack, or disabling a disabled one,
    /// changes nothing.
    pub fn set_pack_enabled(&mut self, id: &str, enabled: bool) -> (r: RepositoryResult<()>)
        ensures
            old(self)@.pack_index(id@) is None ==> (r matches Err(e) && e.code == RepositoryErrorCode::NotFound
                && final(self)@ == old(self)@),
            old(self)@.pack_index(id@) is Some && enabled == old(self)@.is_enabled(id@) ==> (r is Ok
                && final(self)@ == old(self)@),
            old(self)@.pack_index(id@) is Some && !enabled && old(self)@.is_enabled(id@) ==> (r is Ok
                && final(self)@ == (RepositoryModel {
                    enabled_pack_ids: ids_without(old(self)@.enabled_pack_ids, id@),
                    ..old(self)@
                })),
            old(self)@.pack_index(id@) is Some && enabled && !old(self)@.is_enabled(id@) ==> ({
                let p = old(self)@.packs[old(self)@.pack_index(id@)->0];
                &&& enable_conflict(old(self)@, p) ==> (r matches Err(e)
                    && e.code == RepositoryErrorCode::ValidationFailed && final(self)@ == old(self)@)
                &&& !enable_conflict(old(self)@, p) ==> (r is Ok && final(self)@ == (RepositoryModel {
                    enabled_pack_ids: ids_with(old(self)@.enabled_pack_ids, id@),
                    ..old(self)@
                }))
            }),
    {
        let found = self.find_pack(id);
        let i = match found {
            Some(i) => i,
            None => return Err(RepositoryError::new(RepositoryErrorCode::NotFound, concat3("Pack '", id, "' was not found"))),
        };
        let currently = self.is_enabled(id);
        if currently == enabled {
            return Ok(());
        }
        if !enabled {
            let k = find_name(&self.enabled_pack_ids, id);
            match k {
                Some(k) => {
                    let _ = self.enabled_pack_ids.remove(k);
                    proof { assert(names_model(self.enabled_pack_ids@) =~= ids_without(old(self)@.enabled_pack_ids, id@)); }
                }
                None => {}
            }
            return Ok(());
        }
        proof { assert(self@.packs[i as int] == self.packs@[i as int]@); }
        let conflict = self.enable_would_conflict(i);
        if conflict {
            let issue = ValidationIssue {
                code: String::from_str("definition_conflict"),
                path: String::from_str("record_definitions"),
                message: String::from_str("another enabled Pack supplies this Record definition"),
            };
            let mut issues = Vec::new();
            issues.push(issue);
            return Err(RepositoryError::validation(issues, concat3("Pack '", id, "' conflicts with an enabled Pack")));
        }
        match find_name_slot(&self.enabled_pack_ids, id) {
            Some(j) => {
                self.enabled_pack_ids.insert(j, id.to_string());
            }
            None => {
                self.enabled_pack_ids.push(id.to_string());
            }
        }
        proof { assert(names_model(self.enabled_pack_ids@) =~= ids_with(old(self)@.enabled_pack_ids, id@)); }
        Ok(())
    }

    /// Whether enabling the Pack at `i` would conflict with the enabled Packs.
    fn enable_would_conflict(&self, i: usize) -> (r: bool)
        requires
            i < self.packs@.len(),
        ensures
            r == enable_conflict(self@, self@.packs[i as int]),
    {
        let pack = &self.packs[i];
        proof { assert(self@.packs[i as int] == pack@); }
        match &pack.record_definitions {
            Some(file) => {
                let mut k: usize = 0;
                while k < file.definitions.len()
                    invariant
                        k <= file.definitions@.len(),
                        pack@ == self@.packs[i as int],
                        pack.record_definitions == Some(*file),
                        forall|j: int| 0 <= j < k ==> registry_definition(self@, (#[trigger] file.definitions@[j])@.id()@) is None,
                    decreases file.definitions.len() - k,
                {
                    let d = file.definitions[k].id();
                    if self.registry_definition(d.as_str()).is_some() {
                        proof { assert(pack_definitions(self@.packs[i as int])[k as int] == file.definitions@[k as int]@); }
                        return true;
                    }
                    k = k + 1;
                }
                proof {
                    assert forall|j: int| 0 <= j < pack_definitions(self@.packs[i as int]).len()
                        implies registry_definition(self@, (#[trigger] pack_definitions(self@.packs[i as int])[j]).id()@) is None by {
                        assert(pack_definitions(self@.packs[i as int])[j] == file.definitions@[j]@);
                    }
                }
                false
            }
            None => false,
        }
    }
}

/// What deleting a Pack reports.
#[derive(Debug, Clone, PartialEq, Eq)]
pub struct PackDeleteResult {
    pub pack_id: String,
    pub deleted: bool,
    pub was_enabled: bool,
}

impl Repository {
    /// Delete an installed Pack and its enabled state.
    pub fn delete_pack(&mut self, pack_id: &str) -> (r: RepositoryResult<PackDeleteResult>)
        ensures
            match old(self)@.pack_index(pack_id@) {
                None => r matches Err(e) && e.code == RepositoryErrorCode::NotFound && final(self)@ == old(self)@,
                Some(i) => r matches Ok(res) && res.pack_id@ == pack_id@ && res.deleted
                    && res.was_enabled == old(self)@.is_enabled(pack_id@)
                    && final(self)@ == (RepositoryModel {
                        packs: old(self)@.packs.remove(i),
                        enabled_pack_ids: ids_without(old(self)@.enabled_pack_ids, pack_id@),
                        ..old(self)@
                    }),
            },
    {
        let i = match self.find_pack(pack_id) {
            Some(i) => i,
            None => return Err(RepositoryError::new(RepositoryErrorCode::NotFound, concat3("Pack '", pack_id, "' was not found"))),
        };
        let was_enabled = self.is_enabled(pack_id);
        let ghost before = self.packs@;
        let _ = self.packs.remove(i);
        proof { assert(packs_model(self.packs@) =~= packs_model(before).remove(i as int)); }
        match find_name(&self.enabled_pack_ids, pack_id) {
            Some(k) => {
                let ghost ids = self.enabled_pack_ids@;
                let _ = self.enabled_pack_ids.remove(k);
                proof { assert(names_model(self.enabled_pack_ids@) =~= names_model(ids).remove(k as int)); }
            }
            None => {}
        }
        Ok(PackDeleteResult { pack_id: pack_id.to_string(), deleted: true, was_enabled })
    }
}

} // verus!
