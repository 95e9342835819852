//! Status Dimensions: which the enabled Packs supply, and the device-local
//! choice of Dimensions for the five display positions.
use vstd::prelude::*;
use crate::catalog::{dimension_pairs_view, dimensions_of, enabled_packs, pack_dimensions};
use crate::error::{RepositoryError, RepositoryErrorCode, RepositoryResult, ValidationIssue};
use crate::pack::{DimensionDefinition, DimensionModel, PackModel};
use crate::repository::{Repository, RepositoryModel};
use crate::seqs::{lemma_filter_ends, lemma_filter_step, replace_or_push};
use crate::state::{StatusDimensionSelection, STATUS_POSITION_COUNT};
use crate::text::{concat3, str_eq};

verus! {

#[derive(Debug, Clone, PartialEq, Eq)]
pub struct AvailableStatusDimension {
    pub pack_id: String,
    pub definition: DimensionDefinition,
    pub selected_position: Option<u8>,
}

#[derive(Debug, Clone, PartialEq, Eq)]
pub struct StatusSelectionAvailability {
    pub position: u8,
    pub dimension_id: String,
    pub available: bool,
}

#[derive(Debug, Clone, PartialEq, Eq)]
pub struct StatusDimensionList {
    pub dimensions: Vec<AvailableStatusDimension>,
    pub selections: Vec<StatusSelectionAvailability>,
}

#[derive(Debug, Clone, PartialEq, Eq)]
pub struct StatusSelectionResult {
    pub position: u8,
    pub dimension_id: Option<String>,
    pub changed: bool,
}

/// The position at which a Dimension is selected: the last selection that
/// names it.
pub open spec fn selected_position(sels: Seq<StatusDimensionSelection>, id: Seq<char>) -> Option<u8>
    decreases sels.len(),
{
    if sels.len() == 0 {
        None
    } else if sels.last().dimension_id@ == id {
        Some(sels.last().position)
    } else {
        selected_position(sels.drop_last(), id)
    }
}

/// Some enabled Dimension has the identifier.
pub open spec fn dimension_available(dims: Seq<(String, DimensionModel)>, id: Seq<char>) -> bool {
    exists|k: int| 0 <= k < dims.len() && (#[trigger] dims[k]).1.id@ == id
}

/// Some installed Pack, enabled or not, has a Dimension with the identifier.
pub open spec fn dimension_installed(packs: Seq<PackModel>, id: Seq<char>) -> bool {
    exists|k: int, j: int| 0 <= k < packs.len() && 0 <= j < pack_dimensions(#[trigger] packs[k]).len()
        && (#[trigger] pack_dimensions(packs[k])[j]).id@ == id
}

pub open spec fn dimension_filter(id: Option<Seq<char>>) -> spec_fn((String, DimensionModel)) -> bool {
    |e: (String, DimensionModel)| match id {
        Some(i) => e.1.id@ == i,
        None => true,
    }
}

pub open spec fn position_taken_by(sels: Seq<StatusDimensionSelection>, position: u8, id: Seq<char>) -> bool {
    exists|k: int| 0 <= k < sels.len() && (#[trigger] sels[k]).position == position && sels[k].dimension_id@ == id
}

fn position_error(position: u8) -> (r: RepositoryError)
    ensures
        r.code == RepositoryErrorCode::ValidationFailed,
{
    let issue = ValidationIssue {
        code: String::from_str("invalid_status_position"),
        path: String::from_str("position"),
        message: String::from_str("must be between 0 and 4"),
    };
    let mut issues = Vec::new();
    issues.push(issue);
    RepositoryError::validation(issues, String::from_str("Status selection position must be between 0 and 4"))
}

fn selected_position_exec(sels: &Vec<StatusDimensionSelection>, id: &str) -> (r: Option<u8>)
    ensures
        r == selected_position(sels@, id@),
{
    let mut found: Option<u8> = None;
    let mut k: usize = 0;
    proof { assert(sels@.take(0) =~= Seq::<StatusDimensionSelection>::empty()); }
    while k < sels.len()
        invariant
            k <= sels@.len(),
            found == selected_position(sels@.take(k as int), id@),
        decreases sels.len() - k,
    {
        proof {
            assert(sels@.take(k + 1).drop_last() =~= sels@.take(k as int));
            assert(sels@.take(k + 1).last() == sels@[k as int]);
        }
        if str_eq(sels[k].dimension_id.as_str(), id) {
            found = Some(sels[k].position);
        }
        k = k + 1;
    }
    proof { assert(sels@.take(sels@.len() as int) =~= sels@); }
    found
}

pub fn dimension_available_exec(dims: &Vec<(String, DimensionDefinition)>, id: &str) -> (r: bool)
    ensures
        r == dimension_available(dimension_pairs_view(dims@), id@),
{
    let ghost v = dimension_pairs_view(dims@);
    let mut k: usize = 0;
    while k < dims.len()
        invariant
            k <= dims@.len(),
            v == dimension_pairs_view(dims@),
            forall|j: int| 0 <= j < k ==> (#[trigger] v[j]).1.id@ != id@,
        decreases dims.len() - k,
    {
        proof { assert(v[k as int].1 == dims@[k as int].1@); }
        if str_eq(dims[k].1.id.as_str(), id) {
            return true;
        }
        k = k + 1;
    }
    false
}

impl Repository {
    fn dimension_installed_exec(&self, id: &str) -> (r: bool)
        ensures
            r == dimension_installed(self@.packs, id@),
    {
        let mut k: usize = 0;
        while k < self.packs.len()
            invariant
                k <= self.packs@.len(),
                forall|i: int, j: int| 0 <= i < k && 0 <= j < pack_dimensions(#[trigger] self@.packs[i]).len()
                    ==> (#[trigger] pack_dimensions(self@.packs[i])[j]).id@ != id@,
            decreases self.packs.len() - k,
        {
            proof { assert(self@.packs[k as int] == self.packs@[k as int]@); }
            match &self.packs[k].dimensions {
                Some(file) => {
                    let mut d: usize = 0;
                    while d < file.dimensions.len()
                        invariant
                            d <= file.dimensions@.len(),
                            k < self.packs@.len(),
                            self@.packs[k as int] == self.packs@[k as int]@,
                            self.packs@[k as int].dimensions == Some(*file),
                            forall|j: int| 0 <= j < d ==> (#[trigger] file.dimensions@[j]).id@ != id@,
                        decreases file.dimensions.len() - d,
                    {
                        if str_eq(file.dimensions[d].id.as_str(), id) {
                            proof {
                                assert(pack_dimensions(self@.packs[k as int])[d as int] == file.dimensions@[d as int]@);
                                assert(0 <= d < pack_dimensions(self@.packs[k as int]).len());
                                assert(pack_dimensions(self@.packs[k as int])[d as int].id@ == id@);
                            }
                            return true;
                        }
                        d = d + 1;
                    }
                    proof {
                        assert forall|j: int| 0 <= j < pack_dimensions(self@.packs[k as int]).len()
                            implies (#[trigger] pack_dimensions(self@.packs[k as int])[j]).id@ != id@ by {
                            assert(pack_dimensions(self@.packs[k as int])[j] == file.dimensions@[j]@);
                        }
                    }
                }
                None => {}
            }
            k = k + 1;
        }
        false
    }
}

pub struct StatusCommands<'repository> {
    pub repository: &'repository mut Repository,
}

impl Repository {
    /// Select a Dimension for a display position; selecting the current
    /// choice changes nothing.
    pub fn status_select(&mut self, position: u8, dimension_id: String) -> (r: RepositoryResult<StatusSelectionResult>)
        ensures
            ({
                let m = old(self)@;
                if position_taken_by(m.status_selections, position, dimension_id@) {
                    r matches Ok(res) && res.position == position && res.dimension_id == Some(dimension_id) && !res.changed
                        && final(self)@ == m
                } else if position >= STATUS_POSITION_COUNT {
                    r matches Err(e) && e.code == RepositoryErrorCode::ValidationFailed && final(self)@ == m
                } else {
                    r matches Ok(res) && res.position == position && res.dimension_id == Some(dimension_id) && res.changed
                        && final(self)@ == (RepositoryModel {
                            status_selections: replace_or_push(m.status_selections, m.selection_index(position),
                                StatusDimensionSelection { position: position, dimension_id: dimension_id }),
                            ..m
                        })
                }
            }),
    {
        let mut k: usize = 0;
        while k < self.status_selections.len()
            invariant
                k <= self@.status_selections.len(),
                forall|j: int| 0 <= j < k ==> !((#[trigger] self@.status_selections[j]).position == position
                    && self@.status_selections[j].dimension_id@ == dimension_id@),
            decreases self.status_selections.len() - k,
        {
            let s = &self.status_selections[k];
            if s.position == position && str_eq(s.dimension_id.as_str(), dimension_id.as_str()) {
                return Ok(StatusSelectionResult { position, dimension_id: Some(dimension_id), changed: false });
            }
            k = k + 1;
        }
        if position >= STATUS_POSITION_COUNT {
            return Err(position_error(position));
        }
        let selection = StatusDimensionSelection { position, dimension_id: dimension_id.clone() };
        match self.find_selection(position) {
            Some(i) => {
                self.status_selections.set(i, selection);
            }
            None => {
                self.status_selections.push(selection);
            }
        }
        Ok(StatusSelectionResult { position, dimension_id: Some(dimension_id), changed: true })
    }

    /// Clear a display position; clearing an empty valid position changes
    /// nothing, and a position outside the five is refused.
    pub fn status_clear_selection(&mut self, position: u8) -> (r: RepositoryResult<StatusSelectionResult>)
        ensures
            match old(self)@.selection_index(position) {
                None => if position >= STATUS_POSITION_COUNT {
                    r matches Err(e) && e.code == RepositoryErrorCode::ValidationFailed
                        && final(self)@ == old(self)@
                } else {
                    r matches Ok(res) && res.position == position && res.dimension_id is None && !res.changed
                        && final(self)@ == old(self)@
                },
                Some(i) => r matches Ok(res) && res.position == position && res.dimension_id is None && res.changed
                    && final(self)@ == (RepositoryModel {
                        status_selections: old(self)@.status_selections.remove(i),
                        ..old(self)@
                    }),
            },
    {
        match self.find_selection(position) {
            None => {
                if position >= STATUS_POSITION_COUNT {
                    return Err(position_error(position));
                }
                Ok(StatusSelectionResult { position, dimension_id: None, changed: false })
            }
            Some(i) => {
                let _ = self.status_selections.remove(i);
                Ok(StatusSelectionResult { position, dimension_id: None, changed: true })
            }
        }
    }
}

impl<'repository> StatusCommands<'repository> {
    pub fn new(repository: &'repository mut Repository) -> (r: Self)
        ensures
            r.repository@ == old(repository)@,
    {
        StatusCommands { repository }
    }

    /// The Dimensions the enabled Packs supply with the positions they are
    /// selected at, and every selection with whether its Dimension is
    /// available.
    pub fn list_dimensions(&mut self) -> (r: RepositoryResult<StatusDimensionList>)
        ensures
            final(self).repository@ == old(self).repository@,
            r matches Ok(l) && {
                let m = old(self).repository@;
                let dims = dimensions_of(enabled_packs(m));
                &&& l.dimensions@.len() == dims.len()
                &&& forall|k: int| 0 <= k < dims.len() ==> (#[trigger] l.dimensions@[k]).pack_id == dims[k].0
                    && l.dimensions@[k].definition@ == dims[k].1
                    && l.dimensions@[k].selected_position == selected_position(m.status_selections, dims[k].1.id@)
                &&& l.selections@.len() == m.status_selections.len()
                &&& forall|k: int| 0 <= k < m.status_selections.len() ==> (#[trigger] l.selections@[k]).position == m.status_selections[k].position
                    && l.selections@[k].dimension_id == m.status_selections[k].dimension_id
                    && l.selections@[k].available == dimension_available(dims, m.status_selections[k].dimension_id@)
            },
    {
        let dims = self.repository.enabled_dimensions();
        let ghost dv = dimension_pairs_view(dims@);
        let mut dimensions: Vec<AvailableStatusDimension> = Vec::new();
        let mut k: usize = 0;
        while k < dims.len()
            invariant
                k <= dims@.len(),
                dv == dimension_pairs_view(dims@),
                dimensions@.len() == k,
                forall|j: int| 0 <= j < k ==> (#[trigger] dimensions@[j]).pack_id == dv[j].0
                    && dimensions@[j].definition@ == dv[j].1
                    && dimensions@[j].selected_position == selected_position(self.repository@.status_selections, dv[j].1.id@),
            decreases dims.len() - k,
        {
            let position = selected_position_exec(&self.repository.status_selections, dims[k].1.id.as_str());
            dimensions.push(AvailableStatusDimension {
                pack_id: dims[k].0.clone(),
                definition: dims[k].1.copied(),
                selected_position: position,
            });
            k = k + 1;
        }
        let mut selections: Vec<StatusSelectionAvailability> = Vec::new();
        let mut k: usize = 0;
        while k < self.repository.status_selections.len()
            invariant
                k <= self.repository@.status_selections.len(),
                dv == dimension_pairs_view(dims@),
                selections@.len() == k,
                forall|j: int| 0 <= j < k ==> (#[trigger] selections@[j]).position == self.repository@.status_selections[j].position
                    && selections@[j].dimension_id == self.repository@.status_selections[j].dimension_id
                    && selections@[j].available == dimension_available(dv, self.repository@.status_selections[j].dimension_id@),
            decreases self.repository.status_selections.len() - k,
        {
            let s = &self.repository.status_selections[k];
            let available = dimension_available_exec(&dims, s.dimension_id.as_str());
            selections.push(StatusSelectionAvailability { position: s.position, dimension_id: s.dimension_id.clone(), available });
            k = k + 1;
        }
        Ok(StatusDimensionList { dimensions, selections })
    }

    /// The enabled Dimensions to evaluate: all of them, or the one with the
    /// identifier.  An identifier that no enabled Pack supplies is
    /// unresolved when an installed Pack has it, and not found otherwise.
    pub fn resolve_dimensions(&mut self, dimension_id: Option<&str>) -> (r: RepositoryResult<Vec<(String, DimensionDefinition)>>)
        ensures
            final(self).repository@ == old(self).repository@,
            ({
                let m = old(self).repository@;
                let id = match dimension_id { Some(i) => Some(i@), None => None };
                let matching = dimensions_of(enabled_packs(m)).filter(dimension_filter(id));
                if id is Some && matching.len() == 0 {
                    if dimension_installed(m.packs, id->0) {
                        r matches Err(e) && e.code == RepositoryErrorCode::Unresolved
                    } else {
                        r matches Err(e) && e.code == RepositoryErrorCode::NotFound
                    }
                } else {
                    r matches Ok(v) && dimension_pairs_view(v@) == matching
                }
            }),
    {
        let dims = self.repository.enabled_dimensions();
        let ghost id = match dimension_id { Some(i) => Some(i@), None => None };
        let ghost dv = dimension_pairs_view(dims@);
        proof { lemma_filter_ends(dv, dimension_filter(id)); }
        let mut out: Vec<(String, DimensionDefinition)> = Vec::new();
        proof { assert(dimension_pairs_view(out@) =~= Seq::<(String, DimensionModel)>::empty()); }
        let mut k: usize = 0;
        while k < dims.len()
            invariant
                k <= dims@.len(),
                dv == dimension_pairs_view(dims@),
                id == match dimension_id { Some(i) => Some(i@), None => None },
                dimension_pairs_view(out@) == dv.take(k as int).filter(dimension_filter(id)),
            decreases dims.len() - k,
        {
            proof {
                lemma_filter_step(dv, dimension_filter(id), k as int);
                assert(dv[k as int] == (dims@[k as int].0, dims@[k as int].1@));
            }
            let keep = match dimension_id {
                Some(i) => str_eq(dims[k].1.id.as_str(), i),
                None => true,
            };
            if keep {
                let ghost before = out@;
                out.push((dims[k].0.clone(), dims[k].1.copied()));
                proof { assert(dimension_pairs_view(out@) =~= dimension_pairs_view(before).push(dv[k as int])); }
            }
            k = k + 1;
        }
        match dimension_id {
            Some(i) => {
                if out.len() == 0 {
                    if self.repository.dimension_installed_exec(i) {
                        return Err(RepositoryError::new(
                            RepositoryErrorCode::Unresolved,
                            concat3("Status Dimension '", i, "' is not supplied by an enabled Pack"),
                        ));
                    }
                    return Err(RepositoryError::new(
                        RepositoryErrorCode::NotFound,
                        concat3("Status Dimension '", i, "' was not found"),
                    ));
                }
            }
            None => {}
        }
        Ok(out)
    }

    /// Select a Dimension for a display position; selecting the current
    /// choice changes nothing.
    pub fn select(&mut self, position: u8, dimension_id: String) -> (r: RepositoryResult<StatusSelectionResult>)
        ensures
            ({
                let m = old(self).repository@;
                if position_taken_by(m.status_selections, position, dimension_id@) {
                    r matches Ok(res) && res.position == position && res.dimension_id == Some(dimension_id) && !res.changed
                        && final(self).repository@ == m
                } else if position >= STATUS_POSITION_COUNT {
                    r matches Err(e) && e.code == RepositoryErrorCode::ValidationFailed && final(self).repository@ == m
                } else {
                    r matches Ok(res) && res.position == position && res.dimension_id == Some(dimension_id) && res.changed
                        && final(self).repository@ == (RepositoryModel {
                            status_selections: replace_or_push(m.status_selections, m.selection_index(position),
                                StatusDimensionSelection { position: position, dimension_id: dimension_id }),
                            ..m
                        })
                }
            }),
    {
        self.repository.status_select(position, dimension_id)
    }

    /// Clear a display position; clearing an empty valid position changes
    /// nothing, and a position outside the five is refused.
    pub fn clear_selection(&mut self, position: u8) -> (r: RepositoryResult<StatusSelectionResult>)
        ensures
            match old(self).repository@.selection_index(position) {
                None => if position >= STATUS_POSITION_COUNT {
                    r matches Err(e) && e.code == RepositoryErrorCode::ValidationFailed
                        && final(self).repository@ == old(self).repository@
                } else {
                    r matches Ok(res) && res.position == position && res.dimension_id is None && !res.changed
                        && final(self).repository@ == old(self).repository@
                },
                Some(i) => r matches Ok(res) && res.position == position && res.dimension_id is None && res.changed
                    && final(self).repository@ == (RepositoryModel {
                        status_selections: old(self).repository@.status_selections.remove(i),
                        ..old(self).repository@
                    }),
            },
    {
        self.repository.status_clear_selection(position)
    }
}

} // verus!
