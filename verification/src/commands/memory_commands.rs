//! Assistant memory commands: notes the assistant keeps about the user.
use vstd::prelude::*;
use crate::clock::{is_clock_time, new_uuid_v7, now_rfc3339, uuid_v7_shape};
use crate::error::{RepositoryError, RepositoryErrorCode, RepositoryResult, ValidationIssue};
use crate::repository::{Repository, RepositoryModel};
use crate::seqs::{lemma_filter_ends, lemma_filter_step};
use crate::state::{AssistantMemory, AssistantMemoryKind};
use crate::text::{concat3, seq_lt, str_eq, str_lt};
use crate::commands::mutation_commands::memory_delete_outcome;
use crate::laws::law_memory_delete_removes_it;

verus! {

#[derive(Debug, Clone, Default, PartialEq, Eq)]
pub struct QueryAssistantMemory {
    pub memory_id: Option<String>,
    pub kind: Option<AssistantMemoryKind>,
}

#[derive(Debug, Clone, PartialEq, Eq)]
pub struct CreateAssistantMemory {
    pub kind: AssistantMemoryKind,
    pub content: String,
}

#[derive(Debug, Clone, PartialEq, Eq)]
pub struct UpdateAssistantMemory {
    pub memory_id: String,
    pub kind: AssistantMemoryKind,
    pub content: String,
}

#[derive(Debug, Clone, PartialEq, Eq)]
pub struct AssistantMemoryResult {
    pub memory: AssistantMemory,
    pub changed: bool,
}

#[derive(Debug, Clone, PartialEq, Eq)]
pub struct AssistantMemoryDeleteResult {
    pub memory_id: String,
    pub deleted: bool,
}

pub open spec fn matches_memory_query(m: AssistantMemory, q: QueryAssistantMemory) -> bool {
    &&& (q.memory_id matches Some(id) ==> m.id@ == id@)
    &&& (q.kind matches Some(k) ==> m.kind == k)
}

pub open spec fn memory_filter(q: QueryAssistantMemory) -> spec_fn(AssistantMemory) -> bool {
    |m: AssistantMemory| matches_memory_query(m, q)
}

pub open spec fn new_memory(c: CreateAssistantMemory, id: String, at: String) -> AssistantMemory {
    AssistantMemory { id: id, kind: c.kind, content: c.content, created_at: at, updated_at: at }
}

/// The outcome of creating a memory with identifier `id` at time `at`.
pub open spec fn create_memory_outcome(m: RepositoryModel, c: CreateAssistantMemory, id: String, at: String, r: RepositoryResult<AssistantMemoryResult>, fm: RepositoryModel) -> bool {
    match m.memory_index(id@) {
        Some(_) => r matches Err(e) && e.code == RepositoryErrorCode::Conflict && fm == m,
        None => r matches Ok(res) && res.memory == new_memory(c, id, at) && res.changed
            && fm == (RepositoryModel { memories: m.memories.push(new_memory(c, id, at)), ..m }),
    }
}

/// The outcome of updating memory `c.memory_id` at time `at`: an unchanged
/// kind and content changes nothing; a time before the creation time is
/// refused; otherwise kind, content and update time are replaced while the
/// identifier and creation time stay.
pub open spec fn update_memory_outcome(m: RepositoryModel, c: UpdateAssistantMemory, at: String, r: RepositoryResult<AssistantMemoryResult>, fm: RepositoryModel) -> bool {
    match m.memory_index(c.memory_id@) {
        None => r matches Err(e) && e.code == RepositoryErrorCode::NotFound && fm == m,
        Some(i) => {
            let cur = m.memories[i];
            let upd = AssistantMemory { kind: c.kind, content: c.content, updated_at: at, ..cur };
            if cur.kind == c.kind && cur.content@ == c.content@ {
                r matches Ok(res) && res.memory == cur && !res.changed && fm == m
            } else if seq_lt(at@, cur.created_at@) {
                r matches Err(e) && e.code == RepositoryErrorCode::ValidationFailed && fm == m
            } else {
                r matches Ok(res) && res.memory == upd && res.changed
                    && fm == (RepositoryModel { memories: m.memories.update(i, upd), ..m })
            }
        },
    }
}

pub fn matches_memory_query_exec(m: &AssistantMemory, q: &QueryAssistantMemory) -> (r: bool)
    ensures
        r == matches_memory_query(*m, *q),
{
    let id_ok = match &q.memory_id {
        Some(id) => str_eq(m.id.as_str(), id.as_str()),
        None => true,
    };
    let kind_ok = match q.kind {
        Some(k) => m.kind == k,
        None => true,
    };
    id_ok && kind_ok
}

fn memory_not_found(id: &str) -> (r: RepositoryError)
    ensures
        r.code == RepositoryErrorCode::NotFound,
        r.message@ == "AssistantMemory '"@ + id@ + "' was not found"@,
        r.validation_issues@.len() == 0,
{
    RepositoryError::new(RepositoryErrorCode::NotFound, concat3("AssistantMemory '", id, "' was not found"))
}

pub struct MemoryCommands<'repository> {
    pub repository: &'repository mut Repository,
}

impl Repository {
    /// Delete a memory.
    pub fn memory_delete(&mut self, memory_id: &str) -> (r: RepositoryResult<AssistantMemoryDeleteResult>)
        ensures
            match old(self)@.memory_index(memory_id@) {
                None => r matches Err(e) && e.code == RepositoryErrorCode::NotFound
                    && final(self)@ == old(self)@,
                Some(i) => r matches Ok(res) && res.memory_id@ == memory_id@ && res.deleted
                    && final(self)@ == (RepositoryModel {
                        memories: old(self)@.memories.remove(i),
                        ..old(self)@
                    }),
            },
    {
        let i = match self.find_memory(memory_id) {
            Some(i) => i,
            None => return Err(memory_not_found(memory_id)),
        };
        let _ = self.memories.remove(i);
        Ok(AssistantMemoryDeleteResult { memory_id: memory_id.to_string(), deleted: true })
    }

    /// Create a memory with the given identifier and time.
    pub fn memory_create_at(&mut self, command: CreateAssistantMemory, memory_id: String, created_at: String) -> (r: RepositoryResult<AssistantMemoryResult>)
        ensures
            create_memory_outcome(old(self)@, command, memory_id, created_at, r, final(self)@),
    {
        if self.find_memory(memory_id.as_str()).is_some() {
            return Err(RepositoryError::new(
                RepositoryErrorCode::Conflict,
                concat3("AssistantMemory '", memory_id.as_str(), "' already exists"),
            ));
        }
        let memory = AssistantMemory {
            id: memory_id,
            kind: command.kind,
            content: command.content,
            created_at: created_at.clone(),
            updated_at: created_at,
        };
        self.memories.push(memory.copied());
        Ok(AssistantMemoryResult { memory, changed: true })
    }

    /// Update a memory at the given time.
    pub fn memory_update_at(&mut self, command: UpdateAssistantMemory, updated_at: String) -> (r: RepositoryResult<AssistantMemoryResult>)
        ensures
            update_memory_outcome(old(self)@, command, updated_at, r, final(self)@),
    {
        let i = match self.find_memory(command.memory_id.as_str()) {
            Some(i) => i,
            None => return Err(memory_not_found(command.memory_id.as_str())),
        };
        let current = self.memories[i].copied();
        if current.kind == command.kind && str_eq(current.content.as_str(), command.content.as_str()) {
            return Ok(AssistantMemoryResult { memory: current, changed: false });
        }
        if str_lt(updated_at.as_str(), current.created_at.as_str()) {
            let issue = ValidationIssue {
                code: String::from_str("updated_before_created"),
                path: String::from_str("updated_at"),
                message: String::from_str("must not be earlier than created_at"),
            };
            let mut issues = Vec::new();
            issues.push(issue);
            return Err(RepositoryError::validation(
                issues,
                concat3("AssistantMemory '", current.id.as_str(), "' cannot be updated before it was created"),
            ));
        }
        let memory = AssistantMemory { kind: command.kind, content: command.content, updated_at, ..current };
        self.memories.set(i, memory.copied());
        Ok(AssistantMemoryResult { memory, changed: true })
    }
}

impl<'repository> MemoryCommands<'repository> {
    pub fn new(repository: &'repository mut Repository) -> (r: Self)
        ensures
            r.repository@ == old(repository)@,
    {
        MemoryCommands { repository }
    }

    /// The memories that match the query, in stored order.
    pub fn list(&mut self, query: QueryAssistantMemory) -> (r: RepositoryResult<Vec<AssistantMemory>>)
        ensures
            r matches Ok(v) && v@ == old(self).repository@.memories.filter(memory_filter(query)),
            final(self).repository@ == old(self).repository@,
    {
        let ghost s = self.repository@.memories;
        proof { lemma_filter_ends(s, memory_filter(query)); }
        let mut out: Vec<AssistantMemory> = Vec::new();
        let mut k: usize = 0;
        while k < self.repository.memories.len()
            invariant
                k <= s.len(),
                s == self.repository@.memories,
                out@ == s.take(k as int).filter(memory_filter(query)),
            decreases self.repository.memories.len() - k,
        {
            proof { lemma_filter_step(s, memory_filter(query), k as int); }
            if matches_memory_query_exec(&self.repository.memories[k], &query) {
                out.push(self.repository.memories[k].copied());
            }
            k = k + 1;
        }
        Ok(out)
    }

    /// Create a memory with a fresh identifier at the current time.
    pub fn create(&mut self, command: CreateAssistantMemory) -> (r: RepositoryResult<AssistantMemoryResult>)
        ensures
            exists|id: String, at: String| uuid_v7_shape(id@) && is_clock_time(at@) && create_memory_outcome(old(self).repository@, command, id, at, r, final(self).repository@),
    {
        let id = new_uuid_v7();
        let at = now_rfc3339();
        let ghost (gid, gat) = (id, at);
        let r = self.create_at(command, id, at);
        proof { assert(create_memory_outcome(old(self).repository@, command, gid, gat, r, self.repository@)); }
        r
    }

    /// Update a memory at the current time.
    pub fn update(&mut self, command: UpdateAssistantMemory) -> (r: RepositoryResult<AssistantMemoryResult>)
        ensures
            exists|at: String| is_clock_time(at@) && update_memory_outcome(old(self).repository@, command, at, r, final(self).repository@),
    {
        let at = now_rfc3339();
        let ghost g = at;
        let r = self.update_at(command, at);
        proof { assert(update_memory_outcome(old(self).repository@, command, g, r, self.repository@)); }
        r
    }

    /// Delete a memory.  Where identifiers are unique, as every command
    /// keeps them, no memory has the identifier afterwards.
    pub fn delete(&mut self, memory_id: &str) -> (r: RepositoryResult<AssistantMemoryDeleteResult>)
        ensures
            match old(self).repository@.memory_index(memory_id@) {
                None => r matches Err(e) && e.code == RepositoryErrorCode::NotFound
                    && final(self).repository@ == old(self).repository@,
                Some(i) => r matches Ok(res) && res.memory_id@ == memory_id@ && res.deleted
                    && final(self).repository@ == (RepositoryModel {
                        memories: old(self).repository@.memories.remove(i),
                        ..old(self).repository@
                    }),
            },
            old(self).repository@.ids_unique() ==> final(self).repository@.ids_unique()
                && final(self).repository@.memory_index(memory_id@) is None,
    {
        let ghost m = self.repository@;
        let r = self.repository.memory_delete(memory_id);
        proof {
            if m.ids_unique() {
                assert(memory_delete_outcome(m, memory_id@, r, self.repository@));
                law_memory_delete_removes_it(m, memory_id@, r, self.repository@);
            }
        }
        r
    }

    /// Create a memory with the given identifier and time.
    pub fn create_at(&mut self, command: CreateAssistantMemory, memory_id: String, created_at: String) -> (r: RepositoryResult<AssistantMemoryResult>)
        ensures
            create_memory_outcome(old(self).repository@, command, memory_id, created_at, r, final(self).repository@),
    {
        self.repository.memory_create_at(command, memory_id, created_at)
    }

    /// Update a memory at the given time.
    pub fn update_at(&mut self, command: UpdateAssistantMemory, updated_at: String) -> (r: RepositoryResult<AssistantMemoryResult>)
        ensures
            update_memory_outcome(old(self).repository@, command, updated_at, r, final(self).repository@),
    {
        self.repository.memory_update_at(command, updated_at)
    }
}

} // verus!
