//! Achievements of the file-based data directory: the checks each loaded
//! pack's achievement list must pass, the order its prerequisites must
//! admit, and the prerequisite check before an achievement is marked
//! achieved.
use vstd::prelude::*;
use crate::frontmatter::find_from;
use crate::legacy_skills::{contains_name, contains_name_exec, push_str, starts_with, starts_with_exec};
use crate::text::str_eq;

verus! {

/// An achievement as its pack's list declares it: its id and the ids of its
/// direct prerequisites.
#[derive(Debug, Clone, PartialEq, Eq)]
pub struct AchievementDef {
    pub id: String,
    pub prerequisites: Vec<String>,
}

/// One loaded pack's achievement list: the pack's directory name, the id
/// its manifest declares, and its achievements.
#[derive(Debug, Clone, PartialEq, Eq)]
pub struct AchievementPackFile {
    pub pack_id: String,
    pub manifest_id: String,
    pub achievements: Vec<AchievementDef>,
}

/// The texts of a list of strings.
pub open spec fn texts(v: Seq<String>) -> Seq<Seq<char>> {
    v.map_values(|s: String| s@)
}

/// The ids of a list of achievements, in order.
pub open spec fn ids_of(defs: Seq<AchievementDef>) -> Seq<Seq<char>> {
    defs.map_values(|d: AchievementDef| d.id@)
}

/// The refusal of achievement `i`, judged against the achievements before
/// it and the ids of the packs loaded before.
pub open spec fn id_refusal(pack_id: Seq<char>, defs: Seq<AchievementDef>, prior: Seq<Seq<char>>, i: int) -> Option<Seq<char>> {
    let id = defs[i].id@;
    let prefix = pack_id + "::"@;
    if !starts_with(id, prefix) {
        Some("Achievement '"@ + id + "' in pack '"@ + pack_id + "' must start with '"@ + prefix + "'"@)
    } else if ids_of(defs).take(i).contains(id) {
        Some("Duplicate achievement id '"@ + id + "' in pack '"@ + pack_id + "'"@)
    } else if prior.contains(id) {
        Some("Duplicate achievement id '"@ + id + "' across packs"@)
    } else {
        None
    }
}

/// The refusal of the first of the first `n` achievements that is refused.
pub open spec fn first_id_refusal(pack_id: Seq<char>, defs: Seq<AchievementDef>, prior: Seq<Seq<char>>, n: int) -> Option<Seq<char>>
    decreases n,
{
    if n <= 0 {
        None
    } else {
        match first_id_refusal(pack_id, defs, prior, n - 1) {
            Some(m) => Some(m),
            None => id_refusal(pack_id, defs, prior, n - 1),
        }
    }
}

/// The first of the first `n` prerequisites that names no achievement of
/// the pack.
pub open spec fn first_unknown(ps: Seq<String>, ids: Seq<Seq<char>>, n: int) -> Option<int>
    decreases n,
{
    if n <= 0 {
        None
    } else {
        match first_unknown(ps, ids, n - 1) {
            Some(j) => Some(j),
            None => if !ids.contains(ps[n - 1]@) { Some(n - 1) } else { None },
        }
    }
}

/// The refusal for the first unknown prerequisite among the first `n`
/// achievements.
pub open spec fn first_prerequisite_refusal(defs: Seq<AchievementDef>, n: int) -> Option<Seq<char>>
    decreases n,
{
    if n <= 0 {
        None
    } else {
        match first_prerequisite_refusal(defs, n - 1) {
            Some(m) => Some(m),
            None => {
                let ps = defs[n - 1].prerequisites@;
                match first_unknown(ps, ids_of(defs), ps.len() as int) {
                    Some(j) => Some("Achievement '"@ + defs[n - 1].id@ + "' references unknown prerequisite '"@ + ps[j]@ + "'"@),
                    None => None,
                }
            },
        }
    }
}

/// Achievement `i` lists achievement `j` among its prerequisites.
pub open spec fn depends(defs: Seq<AchievementDef>, i: int, j: int) -> bool {
    contains_name(defs[i].prerequisites@, defs[j].id@)
}

/// `rank` orders the achievements so that each comes after all of its
/// prerequisites.
pub open spec fn ranks_order(defs: Seq<AchievementDef>, rank: Seq<int>) -> bool {
    &&& rank.len() == defs.len()
    &&& forall|i: int, j: int| 0 <= i < defs.len() && 0 <= j < defs.len() && #[trigger] depends(defs, i, j) ==> rank[j] < rank[i]
}

/// The prerequisite graph has no cycle: some order puts every achievement
/// after its prerequisites.
pub open spec fn acyclic(defs: Seq<AchievementDef>) -> bool {
    exists|rank: Seq<int>| ranks_order(defs, rank)
}

/// The text that reports a prerequisite cycle through `id`.
pub open spec fn cycle_message(id: Seq<char>) -> Seq<char> {
    "prerequisite cycle detected involving '"@ + id + "'"@
}

/// The refusal of a pack by the checks that come before the cycle check.
pub open spec fn pack_refusal(pack_id: Seq<char>, manifest_id: Seq<char>, defs: Seq<AchievementDef>, prior: Seq<Seq<char>>) -> Option<Seq<char>> {
    if manifest_id != pack_id {
        Some("Pack '"@ + pack_id + "': manifest.id '"@ + manifest_id + "' does not match directory name"@)
    } else {
        match first_id_refusal(pack_id, defs, prior, defs.len() as int) {
            Some(m) => Some(m),
            None => first_prerequisite_refusal(defs, defs.len() as int),
        }
    }
}

/// The pack is refused, by one of the checks or by a cycle.
pub open spec fn pack_fails(p: AchievementPackFile, prior: Seq<Seq<char>>) -> bool {
    pack_refusal(p.pack_id@, p.manifest_id@, p.achievements@, prior) is Some || !acyclic(p.achievements@)
}

/// `e` is what refusing the pack reports: the first failed check's text,
/// else a cycle through one of its achievements, which it names, behind
/// the pack's id.
pub open spec fn pack_error(p: AchievementPackFile, prior: Seq<Seq<char>>, e: Seq<char>) -> bool {
    match pack_refusal(p.pack_id@, p.manifest_id@, p.achievements@, prior) {
        Some(m) => e == m,
        None => exists|k: int| 0 <= k < p.achievements@.len() && on_cycle(p.achievements@, k)
            && e == "Pack '"@ + p.pack_id@ + "': "@ + cycle_message((#[trigger] p.achievements@[k]).id@),
    }
}

/// The ids of the first `k` packs.
pub open spec fn prior_ids(packs: Seq<AchievementPackFile>, k: int) -> Seq<Seq<char>>
    decreases k,
{
    if k <= 0 {
        Seq::empty()
    } else {
        prior_ids(packs, k - 1) + ids_of(packs[k - 1].achievements@)
    }
}


fn contains_text(v: &Vec<String>, s: &str) -> (r: bool)
    ensures
        r == texts(v@).contains(s@),
{
    let mut k: usize = 0;
    while k < v.len()
        invariant
            k <= v@.len(),
            forall|j: int| 0 <= j < k ==> texts(v@)[j] != s@,
        decreases v.len() - k,
    {
        if str_eq(v[k].as_str(), s) {
            proof { assert(texts(v@)[k as int] == s@); }
            return true;
        }
        k = k + 1;
    }
    false
}

fn id_before(defs: &Vec<AchievementDef>, i: usize) -> (r: bool)
    requires
        i < defs@.len(),
    ensures
        r == ids_of(defs@).take(i as int).contains(defs@[i as int].id@),
{
    let mut j: usize = 0;
    while j < i
        invariant
            i < defs@.len(),
            j <= i,
            forall|m: int| 0 <= m < j ==> ids_of(defs@).take(i as int)[m] != defs@[i as int].id@,
        decreases i - j,
    {
        if str_eq(defs[j].id.as_str(), defs[i].id.as_str()) {
            proof { assert(ids_of(defs@).take(i as int)[j as int] == defs@[i as int].id@); }
            return true;
        }
        j = j + 1;
    }
    false
}

proof fn lemma_first_id_refusal_prefix(pack_id: Seq<char>, defs: Seq<AchievementDef>, prior: Seq<Seq<char>>, k: int, n: int)
    requires
        0 <= k < n,
        first_id_refusal(pack_id, defs, prior, k) is None,
        id_refusal(pack_id, defs, prior, k) is Some,
    ensures
        first_id_refusal(pack_id, defs, prior, n) == id_refusal(pack_id, defs, prior, k),
    decreases n - k,
{
    if n > k + 1 {
        lemma_first_id_refusal_prefix(pack_id, defs, prior, k, n - 1);
    }
}

/// The refusal of the first achievement that is refused, by its id.
fn check_ids(pack_id: &str, defs: &Vec<AchievementDef>, prior: &Vec<String>) -> (r: Option<String>)
    ensures
        match first_id_refusal(pack_id@, defs@, texts(prior@), defs@.len() as int) {
            Some(m) => r matches Some(t) && t@ == m,
            None => r is None,
        },
{
    let mut prefix = String::from_str(pack_id);
    prefix.append("::");
    let mut i: usize = 0;
    while i < defs.len()
        invariant
            i <= defs@.len(),
            prefix@ == pack_id@ + "::"@,
            first_id_refusal(pack_id@, defs@, texts(prior@), i as int) is None,
        decreases defs.len() - i,
    {
        let id = defs[i].id.as_str();
        let ghost before = first_id_refusal(pack_id@, defs@, texts(prior@), i as int);
        if !starts_with_exec(id, prefix.as_str()) {
            let mut m = String::from_str("Achievement '");
            push_str(&mut m, id);
            push_str(&mut m, "' in pack '");
            push_str(&mut m, pack_id);
            push_str(&mut m, "' must start with '");
            push_str(&mut m, prefix.as_str());
            push_str(&mut m, "'");
            proof { lemma_first_id_refusal_prefix(pack_id@, defs@, texts(prior@), i as int, defs@.len() as int); }
            return Some(m);
        }
        if id_before(defs, i) {
            let mut m = String::from_str("Duplicate achievement id '");
            push_str(&mut m, id);
            push_str(&mut m, "' in pack '");
            push_str(&mut m, pack_id);
            push_str(&mut m, "'");
            proof { lemma_first_id_refusal_prefix(pack_id@, defs@, texts(prior@), i as int, defs@.len() as int); }
            return Some(m);
        }
        if contains_text(prior, id) {
            let mut m = String::from_str("Duplicate achievement id '");
            push_str(&mut m, id);
            push_str(&mut m, "' across packs");
            proof { lemma_first_id_refusal_prefix(pack_id@, defs@, texts(prior@), i as int, defs@.len() as int); }
            return Some(m);
        }
        i = i + 1;
    }
    None
}


fn id_known(defs: &Vec<AchievementDef>, p: &str) -> (r: bool)
    ensures
        r == ids_of(defs@).contains(p@),
{
    let mut j: usize = 0;
    while j < defs.len()
        invariant
            j <= defs@.len(),
            forall|m: int| 0 <= m < j ==> ids_of(defs@)[m] != p@,
        decreases defs.len() - j,
    {
        if str_eq(defs[j].id.as_str(), p) {
            proof { assert(ids_of(defs@)[j as int] == p@); }
            return true;
        }
        j = j + 1;
    }
    false
}

proof fn lemma_first_unknown_prefix(ps: Seq<String>, ids: Seq<Seq<char>>, k: int, n: int)
    requires
        0 <= k < n,
        first_unknown(ps, ids, k) is None,
        !ids.contains(ps[k]@),
    ensures
        first_unknown(ps, ids, n) == Some(k),
    decreases n - k,
{
    if n > k + 1 {
        lemma_first_unknown_prefix(ps, ids, k, n - 1);
    }
}

proof fn lemma_first_prerequisite_refusal_prefix(defs: Seq<AchievementDef>, k: int, n: int)
    requires
        0 <= k < n,
        first_prerequisite_refusal(defs, k) is None,
        first_prerequisite_refusal(defs, k + 1) is Some,
    ensures
        first_prerequisite_refusal(defs, n) == first_prerequisite_refusal(defs, k + 1),
    decreases n - k,
{
    if n > k + 1 {
        lemma_first_prerequisite_refusal_prefix(defs, k, n - 1);
    }
}

/// The refusal for the first prerequisite that names no achievement of the
/// pack.
fn check_prerequisites(defs: &Vec<AchievementDef>) -> (r: Option<String>)
    ensures
        match first_prerequisite_refusal(defs@, defs@.len() as int) {
            Some(m) => r matches Some(t) && t@ == m,
            None => r is None,
        },
{
    let mut i: usize = 0;
    while i < defs.len()
        invariant
            i <= defs@.len(),
            first_prerequisite_refusal(defs@, i as int) is None,
        decreases defs.len() - i,
    {
        let ps = &defs[i].prerequisites;
        let mut j: usize = 0;
        while j < ps.len()
            invariant
                i < defs@.len(),
                ps@ == defs@[i as int].prerequisites@,
                first_prerequisite_refusal(defs@, i as int) is None,
                j <= ps@.len(),
                first_unknown(ps@, ids_of(defs@), j as int) is None,
            decreases ps.len() - j,
        {
            if !id_known(defs, ps[j].as_str()) {
                proof {
                    lemma_first_unknown_prefix(ps@, ids_of(defs@), j as int, ps@.len() as int);
                    assert(first_prerequisite_refusal(defs@, i + 1) is Some);
                    lemma_first_prerequisite_refusal_prefix(defs@, i as int, defs@.len() as int);
                }
                let mut m = String::from_str("Achievement '");
                push_str(&mut m, defs[i].id.as_str());
                push_str(&mut m, "' references unknown prerequisite '");
                push_str(&mut m, ps[j].as_str());
                push_str(&mut m, "'");
                return Some(m);
            }
            j = j + 1;
        }
        proof { assert(first_prerequisite_refusal(defs@, i + 1) is None); }
        i = i + 1;
    }
    None
}

/// Every prerequisite of achievement `i` is marked done.
pub open spec fn ready(defs: Seq<AchievementDef>, done: Seq<bool>, i: int) -> bool {
    forall|j: int| 0 <= j < defs.len() && #[trigger] depends(defs, i, j) ==> done[j]
}

/// How many entries are not marked done.
pub open spec fn count_open(done: Seq<bool>) -> nat
    decreases done.len(),
{
    if done.len() == 0 {
        0
    } else {
        count_open(done.drop_last()) + if done.last() { 0nat } else { 1nat }
    }
}

proof fn lemma_count_open_mark(done: Seq<bool>, i: int)
    requires
        0 <= i < done.len(),
        !done[i],
    ensures
        count_open(done.update(i, true)) + 1 == count_open(done),
    decreases done.len(),
{
    let u = done.update(i, true);
    if i == done.len() - 1 {
        assert(u.drop_last() =~= done.drop_last());
    } else {
        assert(u.drop_last() =~= done.drop_last().update(i, true));
        lemma_count_open_mark(done.drop_last(), i);
    }
}

fn ready_exec(defs: &Vec<AchievementDef>, done: &Vec<bool>, i: usize) -> (r: bool)
    requires
        i < defs@.len(),
        done@.len() == defs@.len(),
    ensures
        r == ready(defs@, done@, i as int),
{
    let mut j: usize = 0;
    while j < defs.len()
        invariant
            i < defs@.len(),
            done@.len() == defs@.len(),
            j <= defs@.len(),
            forall|m: int| 0 <= m < j && #[trigger] depends(defs@, i as int, m) ==> done@[m],
        decreases defs.len() - j,
    {
        if !done[j] && contains_name_exec(&defs[i].prerequisites, defs[j].id.as_str()) {
            proof { assert(depends(defs@, i as int, j as int)); }
            return false;
        }
        j = j + 1;
    }
    true
}

/// An open entry of least rank among the first `n` entries.
proof fn lemma_least_open(done: Seq<bool>, rank: Seq<int>, n: int, w: int) -> (m: int)
    requires
        0 <= w < n <= done.len(),
        rank.len() == done.len(),
        !done[w],
    ensures
        0 <= m < n,
        !done[m],
        forall|i: int| 0 <= i < n && !done[i] ==> rank[m] <= #[trigger] rank[i],
    decreases n,
{
    if n == 1 {
        0
    } else {
        let w0 = if w < n - 1 { w } else if exists|i: int| 0 <= i < n - 1 && !done[i] {
            choose|i: int| 0 <= i < n - 1 && !done[i]
        } else {
            -1
        };
        if w0 < 0 {
            n - 1
        } else {
            let m0 = lemma_least_open(done, rank, n - 1, w0);
            if !done[n - 1] && rank[n - 1] < rank[m0] { n - 1 } else { m0 }
        }
    }
}

/// Where every open achievement waits on an open prerequisite, no order
/// puts each after its prerequisites.
proof fn lemma_stuck_is_cyclic(defs: Seq<AchievementDef>, done: Seq<bool>, w: int)
    requires
        done.len() == defs.len(),
        0 <= w < defs.len(),
        !done[w],
        forall|i: int| 0 <= i < defs.len() && !done[i] ==> !ready(defs, done, i),
    ensures
        !acyclic(defs),
{
    if acyclic(defs) {
        let rank = choose|rank: Seq<int>| ranks_order(defs, rank);
        let m = lemma_least_open(done, rank, defs.len() as int, w);
        assert(!ready(defs, done, m));
        let j = choose|j: int| 0 <= j < defs.len() && #[trigger] depends(defs, m, j) && !done[j];
        assert(rank[j] < rank[m]);
    }
}

/// `p` is a walk along prerequisites: each of its achievements lists the
/// next among its prerequisites.
pub open spec fn is_walk(defs: Seq<AchievementDef>, p: Seq<int>) -> bool {
    &&& forall|t: int| 0 <= t < p.len() ==> 0 <= #[trigger] p[t] < defs.len()
    &&& forall|s: int, t: int| #![trigger p[s], p[t]] 0 <= s && t == s + 1 && t < p.len() ==> depends(defs, p[s], p[t])
}

/// Achievement `k` lies on a prerequisite cycle: following prerequisites
/// from it leads back to it.
pub open spec fn on_cycle(defs: Seq<AchievementDef>, k: int) -> bool {
    exists|p: Seq<int>| p.len() >= 2 && is_walk(defs, p) && p[0] == k && #[trigger] p.last() == k
}

proof fn lemma_walk_ranks_fall(defs: Seq<AchievementDef>, rank: Seq<int>, p: Seq<int>)
    requires
        ranks_order(defs, rank),
        is_walk(defs, p),
        p.len() >= 2,
    ensures
        rank[p.last()] < rank[p[0]],
    decreases p.len(),
{
    let q = p.drop_last();
    let a = p[p.len() - 2];
    let b = p[p.len() - 1];
    assert(depends(defs, a, b));
    assert(0 <= a < defs.len() && 0 <= b < defs.len());
    if p.len() > 2 {
        assert(is_walk(defs, q)) by {
            assert forall|s: int, t: int| #![trigger q[s], q[t]] 0 <= s && t == s + 1 && t < q.len() implies depends(defs, q[s], q[t]) by {
                assert(q[s] == p[s] && q[t] == p[t]);
            }
        }
        lemma_walk_ranks_fall(defs, rank, q);
    }
}

/// No achievement lies on a cycle where some order puts each after its
/// prerequisites.
proof fn lemma_acyclic_no_cycle(defs: Seq<AchievementDef>, k: int)
    requires
        acyclic(defs),
    ensures
        !on_cycle(defs, k),
{
    if on_cycle(defs, k) {
        let rank = choose|rank: Seq<int>| ranks_order(defs, rank);
        let p = choose|p: Seq<int>| p.len() >= 2 && is_walk(defs, p) && p[0] == k && #[trigger] p.last() == k;
        lemma_walk_ranks_fall(defs, rank, p);
    }
}

/// An open prerequisite of an achievement that waits on one.
fn open_prerequisite(defs: &Vec<AchievementDef>, done: &Vec<bool>, i: usize) -> (j: usize)
    requires
        i < defs@.len(),
        done@.len() == defs@.len(),
        !ready(defs@, done@, i as int),
    ensures
        j < defs@.len(),
        !done@[j as int],
        depends(defs@, i as int, j as int),
{
    let mut j: usize = 0;
    while j < defs.len()
        invariant
            i < defs@.len(),
            done@.len() == defs@.len(),
            !ready(defs@, done@, i as int),
            j <= defs@.len(),
            forall|m: int| 0 <= m < j && #[trigger] depends(defs@, i as int, m) ==> done@[m],
        decreases defs.len() - j,
    {
        if !done[j] && contains_name_exec(&defs[i].prerequisites, defs[j].id.as_str()) {
            proof { assert(depends(defs@, i as int, j as int)); }
            return j;
        }
        j = j + 1;
    }
    proof { assert(ready(defs@, done@, i as int)); }
    0
}

/// Follow open prerequisites from an open achievement until one comes
/// round again: that one lies on a cycle.
fn achievement_on_cycle(defs: &Vec<AchievementDef>, done: &Vec<bool>, start: usize) -> (r: usize)
    requires
        start < defs@.len(),
        done@.len() == defs@.len(),
        !done@[start as int],
        forall|i: int| 0 <= i < defs@.len() && !done@[i] ==> !ready(defs@, done@, i),
    ensures
        r < defs@.len(),
        on_cycle(defs@, r as int),
{
    let n = defs.len();
    let mut seen: Vec<bool> = Vec::new();
    while seen.len() < n
        invariant
            seen@.len() <= n,
            forall|i: int| 0 <= i < seen@.len() ==> !seen@[i],
        decreases n - seen.len(),
    {
        seen.push(false);
    }
    let mut cur = start;
    let ghost mut walk: Seq<int> = seq![start as int];
    loop
        invariant
            n == defs@.len(),
            done@.len() == n,
            seen@.len() == n,
            cur < n,
            !done@[cur as int],
            forall|i: int| 0 <= i < n && !done@[i] ==> !ready(defs@, done@, i),
            walk.len() >= 1,
            walk.last() == cur as int,
            is_walk(defs@, walk),
            forall|i: int| 0 <= i < n ==> (seen@[i] <==> walk.drop_last().contains(i)),
        ensures
            cur < n,
            walk.len() >= 1,
            walk.last() == cur as int,
            is_walk(defs@, walk),
            walk.drop_last().contains(cur as int),
        decreases count_open(seen@),
    {
        if seen[cur] {
            break;
        }
        proof { lemma_count_open_mark(seen@, cur as int); }
        let ghost old_seen = seen@;
        let ghost old_walk = walk;
        seen.set(cur, true);
        let next = open_prerequisite(defs, done, cur);
        proof {
            walk = walk.push(next as int);
            assert(walk.drop_last() =~= old_walk);
            assert(old_walk =~= old_walk.drop_last().push(cur as int));
            assert forall|i: int| 0 <= i < n implies (seen@[i] <==> walk.drop_last().contains(i)) by {
                if i == cur as int {
                    assert(walk.drop_last()[old_walk.len() - 1] == i);
                } else {
                    if old_walk.drop_last().contains(i) {
                        let t = choose|t: int| 0 <= t < old_walk.drop_last().len() && old_walk.drop_last()[t] == i;
                        assert(walk.drop_last()[t] == i);
                    }
                    if walk.drop_last().contains(i) {
                        let t = choose|t: int| 0 <= t < walk.drop_last().len() && walk.drop_last()[t] == i;
                        assert(t < old_walk.len() - 1);
                        assert(old_walk.drop_last()[t] == i);
                    }
                }
            }
            assert forall|t: int| 0 <= t < walk.len() implies 0 <= #[trigger] walk[t] < defs@.len() by {
                if t < old_walk.len() {
                    assert(walk[t] == old_walk[t]);
                }
            }
            assert forall|s: int, t: int| #![trigger walk[s], walk[t]] 0 <= s && t == s + 1 && t < walk.len() implies depends(defs@, walk[s], walk[t]) by {
                if t < old_walk.len() {
                    assert(walk[s] == old_walk[s] && walk[t] == old_walk[t]);
                } else {
                    assert(walk[s] == cur as int && walk[t] == next as int);
                }
            }
        }
        cur = next;
    }
    proof {
        let t = choose|t: int| 0 <= t < walk.drop_last().len() && walk.drop_last()[t] == cur as int;
        let p = walk.subrange(t, walk.len() as int);
        assert(p[0] == cur as int);
        assert(p.last() == cur as int);
        assert forall|u: int| 0 <= u < p.len() implies 0 <= #[trigger] p[u] < defs@.len() by {
            assert(p[u] == walk[t + u]);
        }
        assert forall|s: int, u: int| #![trigger p[s], p[u]] 0 <= s && u == s + 1 && u < p.len() implies depends(defs@, p[s], p[u]) by {
            assert(p[s] == walk[t + s] && p[u] == walk[t + u]);
        }
        assert(on_cycle(defs@, cur as int));
    }
    cur
}

/// A report of a prerequisite cycle, if the achievements'
/// prerequisites admit no order, that is, if some achievement lies on a
/// cycle.  The report names an achievement on a cycle.
pub fn detect_cycle(defs: &Vec<AchievementDef>) -> (r: Option<String>)
    ensures
        r is None <==> acyclic(defs@),
        r is None <==> forall|k: int| 0 <= k < defs@.len() ==> !on_cycle(defs@, k),
        r matches Some(m) ==> exists|k: int| 0 <= k < defs@.len() && on_cycle(defs@, k)
            && m@ == cycle_message((#[trigger] defs@[k]).id@),
{
    let n = defs.len();
    let mut done: Vec<bool> = Vec::new();
    while done.len() < n
        invariant
            done@.len() <= n,
            forall|i: int| 0 <= i < done@.len() ==> !done@[i],
        decreases n - done.len(),
    {
        done.push(false);
    }
    let ghost mut rank: Seq<int> = Seq::new(n as nat, |i: int| 0);
    let ghost mut counter: int = 0;
    let mut progress = true;
    while progress
        invariant
            n == defs@.len(),
            done@.len() == n,
            rank.len() == n,
            forall|i: int| 0 <= i < n && done@[i] ==> rank[i] < counter,
            forall|i: int, j: int| 0 <= i < n && 0 <= j < n && done@[i] && #[trigger] depends(defs@, i, j)
                ==> done@[j] && rank[j] < rank[i],
            !progress ==> forall|i: int| 0 <= i < n && !done@[i] ==> !ready(defs@, done@, i),
        decreases count_open(done@) + if progress { 1nat } else { 0nat },
    {
        let ghost open_before = count_open(done@);
        let mut marked = false;
        let mut i: usize = 0;
        while i < n
            invariant
                n == defs@.len(),
                done@.len() == n,
                rank.len() == n,
                i <= n,
                forall|k: int| 0 <= k < n && done@[k] ==> rank[k] < counter,
                forall|k: int, j: int| 0 <= k < n && 0 <= j < n && done@[k] && #[trigger] depends(defs@, k, j)
                    ==> done@[j] && rank[j] < rank[k],
                marked ==> count_open(done@) < open_before,
                !marked ==> count_open(done@) == open_before,
                !marked ==> forall|k: int| 0 <= k < i && !done@[k] ==> !ready(defs@, done@, k),
            decreases n - i,
        {
            if !done[i] && ready_exec(defs, &done, i) {
                proof {
                    lemma_count_open_mark(done@, i as int);
                    rank = rank.update(i as int, counter);
                    counter = counter + 1;
                }
                done.set(i, true);
                marked = true;
            }
            i = i + 1;
        }
        progress = marked;
    }
    let mut k: usize = 0;
    while k < n && done[k]
        invariant
            n == defs@.len(),
            done@.len() == n,
            k <= n,
            forall|m: int| 0 <= m < k ==> done@[m],
        decreases n - k,
    {
        k = k + 1;
    }
    if k == n {
        proof {
            assert(ranks_order(defs@, rank));
            assert forall|j: int| 0 <= j < defs@.len() implies !on_cycle(defs@, j) by {
                lemma_acyclic_no_cycle(defs@, j);
            }
        }
        return None;
    }
    proof { lemma_stuck_is_cyclic(defs@, done@, k as int); }
    let c = achievement_on_cycle(defs, &done, k);
    let mut m = String::from_str("prerequisite cycle detected involving '");
    push_str(&mut m, defs[c].id.as_str());
    push_str(&mut m, "'");
    Some(m)
}


/// Check one loaded pack's achievement list against the ids of the packs
/// loaded before it; on success its ids join them.
pub fn check_achievement_pack(pack: &AchievementPackFile, seen: &mut Vec<String>) -> (r: Result<(), String>)
    ensures
        r is Err <==> pack_fails(*pack, texts(old(seen)@)),
        r matches Err(e) ==> pack_error(*pack, texts(old(seen)@), e@),
        r is Ok ==> texts(final(seen)@) == texts(old(seen)@) + ids_of(pack.achievements@),
{
    let pack_id = pack.pack_id.as_str();
    let defs = &pack.achievements;
    if !str_eq(pack.manifest_id.as_str(), pack_id) {
        let mut m = String::from_str("Pack '");
        push_str(&mut m, pack_id);
        push_str(&mut m, "': manifest.id '");
        push_str(&mut m, pack.manifest_id.as_str());
        push_str(&mut m, "' does not match directory name");
        return Err(m);
    }
    match check_ids(pack_id, defs, seen) {
        Some(m) => { return Err(m); },
        None => {},
    }
    match check_prerequisites(defs) {
        Some(m) => { return Err(m); },
        None => {},
    }
    match detect_cycle(defs) {
        Some(c) => {
            let mut m = String::from_str("Pack '");
            push_str(&mut m, pack_id);
            push_str(&mut m, "': ");
            push_str(&mut m, c.as_str());
            proof {
                let k = choose|k: int| 0 <= k < defs@.len() && on_cycle(defs@, k) && c@ == cycle_message((#[trigger] defs@[k]).id@);
                assert(m@ == "Pack '"@ + pack.pack_id@ + "': "@ + cycle_message(pack.achievements@[k].id@));
            }
            return Err(m);
        },
        None => {},
    }
    let ghost start = texts(seen@);
    let mut i: usize = 0;
    while i < defs.len()
        invariant
            i <= defs@.len(),
            defs@ == pack.achievements@,
            texts(seen@) == start + ids_of(defs@).take(i as int),
        decreases defs.len() - i,
    {
        let id = defs[i].id.clone();
        let ghost before = seen@;
        seen.push(id);
        proof {
            assert(texts(seen@) =~= texts(before).push(defs@[i as int].id@));
            assert(ids_of(defs@).take(i + 1) =~= ids_of(defs@).take(i as int).push(defs@[i as int].id@));
            assert(texts(seen@) =~= start + ids_of(defs@).take(i + 1));
        }
        i = i + 1;
    }
    proof { assert(ids_of(defs@).take(defs@.len() as int) =~= ids_of(defs@)); }
    Ok(())
}

/// The checks made when achievement packs load: every pack's achievement
/// list, in load order, each against the ids of the packs before it.  The first
/// refused pack decides the error.
pub fn check_achievement_packs(packs: &Vec<AchievementPackFile>) -> (r: Result<(), String>)
    ensures
        r is Ok <==> forall|k: int| 0 <= k < packs@.len() ==> !pack_fails(#[trigger] packs@[k], prior_ids(packs@, k)),
        r matches Err(e) ==> exists|k: int| 0 <= k < packs@.len()
            && (forall|j: int| 0 <= j < k ==> !pack_fails(#[trigger] packs@[j], prior_ids(packs@, j)))
            && pack_fails(#[trigger] packs@[k], prior_ids(packs@, k))
            && pack_error(packs@[k], prior_ids(packs@, k), e@),
{
    let mut seen: Vec<String> = Vec::new();
    let mut i: usize = 0;
    proof { assert(texts(seen@) =~= prior_ids(packs@, 0)); }
    while i < packs.len()
        invariant
            i <= packs@.len(),
            texts(seen@) == prior_ids(packs@, i as int),
            forall|j: int| 0 <= j < i ==> !pack_fails(#[trigger] packs@[j], prior_ids(packs@, j)),
        decreases packs.len() - i,
    {
        match check_achievement_pack(&packs[i], &mut seen) {
            Err(e) => {
                proof { assert(pack_fails(packs@[i as int], prior_ids(packs@, i as int))); }
                return Err(e);
            },
            Ok(()) => {},
        }
        i = i + 1;
    }
    Ok(())
}


/// The progress status of `id`, from the first entry for it: whether it is
/// achieved.
pub open spec fn status_of(progress: Seq<(String, bool)>, id: Seq<char>) -> Option<bool>
    decreases progress.len(),
{
    if progress.len() == 0 {
        None
    } else if progress[0].0@ == id {
        Some(progress[0].1)
    } else {
        status_of(progress.drop_first(), id)
    }
}

/// The prerequisites, in order, whose progress is not achieved.
pub open spec fn missing(ps: Seq<String>, progress: Seq<(String, bool)>) -> Seq<Seq<char>>
    decreases ps.len(),
{
    if ps.len() == 0 {
        Seq::empty()
    } else {
        missing(ps.drop_last(), progress) + if status_of(progress, ps.last()@) == Some(true) {
            Seq::<Seq<char>>::empty()
        } else {
            seq![ps.last()@]
        }
    }
}

/// The parts, `sep` between each two.
pub open spec fn joined(parts: Seq<Seq<char>>, sep: Seq<char>) -> Seq<char>
    decreases parts.len(),
{
    if parts.len() == 0 {
        Seq::empty()
    } else if parts.len() == 1 {
        parts[0]
    } else {
        joined(parts.drop_last(), sep) + sep + parts.last()
    }
}

/// The position of the first achievement with id `id`.
pub open spec fn find_def(defs: Seq<AchievementDef>, id: Seq<char>, n: int) -> Option<int>
    decreases n,
{
    if n <= 0 {
        None
    } else {
        match find_def(defs, id, n - 1) {
            Some(k) => Some(k),
            None => if defs[n - 1].id@ == id { Some(n - 1) } else { None },
        }
    }
}

/// Why `id` may not be marked achieved: it is not in its pack's list, or
/// some direct prerequisite is not achieved yet.
pub open spec fn achieve_refusal(id: Seq<char>, defs: Seq<AchievementDef>, progress: Seq<(String, bool)>) -> Option<Seq<char>> {
    match find_def(defs, id, defs.len() as int) {
        None => Some("Achievement '"@ + id + "' not found."@),
        Some(k) => {
            let ms = missing(defs[k].prerequisites@, progress);
            if ms.len() == 0 {
                None
            } else {
                Some("Prerequisites not met: "@ + joined(ms, ", "@))
            }
        },
    }
}

fn status_exec(progress: &Vec<(String, bool)>, id: &str) -> (r: Option<bool>)
    ensures
        r == status_of(progress@, id@),
{
    let mut k: usize = 0;
    proof { assert(progress@.skip(0) =~= progress@); }
    while k < progress.len()
        invariant
            k <= progress@.len(),
            status_of(progress@, id@) == status_of(progress@.skip(k as int), id@),
        decreases progress.len() - k,
    {
        proof {
            assert(progress@.skip(k as int)[0] == progress@[k as int]);
            assert(progress@.skip(k as int).drop_first() =~= progress@.skip(k + 1));
        }
        if str_eq(progress[k].0.as_str(), id) {
            return Some(progress[k].1);
        }
        k = k + 1;
    }
    proof { assert(progress@.skip(k as int).len() == 0); }
    None
}

/// Join the parts with `sep`.
fn join_exec(parts: &Vec<String>, sep: &str) -> (r: String)
    ensures
        r@ == joined(texts(parts@), sep@),
{
    let mut out = String::new();
    let mut k: usize = 0;
    proof { assert(texts(parts@).take(0) =~= Seq::<Seq<char>>::empty()); }
    while k < parts.len()
        invariant
            k <= parts@.len(),
            out@ == joined(texts(parts@).take(k as int), sep@),
        decreases parts.len() - k,
    {
        let ghost t = texts(parts@).take(k + 1);
        proof {
            assert(t.drop_last() =~= texts(parts@).take(k as int));
            assert(t.last() == parts@[k as int]@);
        }
        if k > 0 {
            push_str(&mut out, sep);
        }
        push_str(&mut out, parts[k].as_str());
        proof {
            if k == 0 {
                assert(out@ =~= t[0]);
            }
        }
        k = k + 1;
    }
    proof { assert(texts(parts@).take(parts@.len() as int) =~= texts(parts@)); }
    out
}

/// Whether an achievement may be marked achieved: `id` must be in its pack's list,
/// and each of its direct prerequisites achieved.
pub fn check_achievable(id: &str, defs: &Vec<AchievementDef>, progress: &Vec<(String, bool)>) -> (r: Result<(), String>)
    ensures
        match achieve_refusal(id@, defs@, progress@) {
            Some(m) => r matches Err(e) && e@ == m,
            None => r is Ok,
        },
{
    let mut k: usize = 0;
    while k < defs.len() && !str_eq(defs[k].id.as_str(), id)
        invariant
            k <= defs@.len(),
            find_def(defs@, id@, k as int) is None,
        decreases defs.len() - k,
    {
        k = k + 1;
    }
    proof { lemma_find_def_rest(defs@, id@, k as int, defs@.len() as int); }
    if k == defs.len() {
        let mut m = String::from_str("Achievement '");
        push_str(&mut m, id);
        push_str(&mut m, "' not found.");
        return Err(m);
    }
    let ps = &defs[k].prerequisites;
    let mut ms: Vec<String> = Vec::new();
    let mut j: usize = 0;
    proof { assert(ps@.take(0) =~= Seq::<String>::empty()); }
    while j < ps.len()
        invariant
            j <= ps@.len(),
            texts(ms@) == missing(ps@.take(j as int), progress@),
        decreases ps.len() - j,
    {
        proof { assert(ps@.take(j + 1).drop_last() =~= ps@.take(j as int)); }
        let st = status_exec(progress, ps[j].as_str());
        if st != Some(true) {
            let ghost before = ms@;
            ms.push(ps[j].clone());
            proof { assert(texts(ms@) =~= texts(before) + seq![ps@[j as int]@]); }
        } else {
            proof { assert(missing(ps@.take(j + 1), progress@) =~= missing(ps@.take(j as int), progress@)); }
        }
        j = j + 1;
    }
    proof { assert(ps@.take(ps@.len() as int) =~= ps@); }
    if ms.len() == 0 {
        return Ok(());
    }
    let mut m = String::from_str("Prerequisites not met: ");
    let list = join_exec(&ms, ", ");
    push_str(&mut m, list.as_str());
    Err(m)
}

proof fn lemma_find_def_rest(defs: Seq<AchievementDef>, id: Seq<char>, k: int, n: int)
    requires
        0 <= k <= n <= defs.len(),
        find_def(defs, id, k) is None,
        k < n ==> defs[k].id@ == id,
    ensures
        k < n ==> find_def(defs, id, n) == Some(k),
    decreases n - k,
{
    if k < n && n > k + 1 {
        lemma_find_def_rest(defs, id, k, n - 1);
    }
}

/// The pack an achievement id belongs to: the text before its first `::`,
/// or the whole id where it has none.
pub fn achievement_pack_id(id: &str) -> (r: String)
    ensures
        r@ == match find_from(id@, "::"@, 0) {
            Some(e) => id@.take(e),
            None => id@,
        },
{
    proof { reveal_strlit("::"); }
    let n = id.unicode_len();
    let mut i: usize = 0;
    while i < n && n - i >= 2 && !str_eq(id.substring_char(i, i + 2), "::")
        invariant
            n == id@.len(),
            i <= n,
            "::"@.len() == 2,
            find_from(id@, "::"@, 0) == find_from(id@, "::"@, i as int),
        decreases n - i,
    {
        proof { assert(id@.subrange(i as int, i + 2) != "::"@); }
        i = i + 1;
    }
    if i < n && n - i >= 2 {
        proof {
            assert(id@.subrange(i as int, i + 2) == "::"@);
            assert(find_from(id@, "::"@, i as int) == Some(i as int));
        }
        return id.substring_char(0, i).to_string();
    }
    proof { assert(find_from(id@, "::"@, i as int) is None); }
    id.to_string()
}

} // verus!
