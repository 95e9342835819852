//! Skill levels of the file-based data directory: each skill of a loaded
//! pack is checked against its pack's achievements, and its level follows
//! from the points of its unlocked nodes and its key achievements.
use vstd::prelude::*;
use crate::text::{decimal_digits, decimal_text, str_eq};

verus! {

#[derive(Debug, Clone, PartialEq, Eq)]
pub struct LevelThreshold {
    pub level: u32,
    pub points_required: u32,
    pub required_key_achievements: Vec<String>,
}

#[derive(Debug, Clone, PartialEq, Eq)]
pub struct SkillNode {
    pub node_id: String,
    pub achievement_id: String,
    pub points: u32,
}

#[derive(Debug, Clone, PartialEq, Eq)]
pub struct Skill {
    pub id: String,
    pub max_level: u32,
    pub level_thresholds: Vec<LevelThreshold>,
    pub nodes: Vec<SkillNode>,
}

#[derive(Debug, Clone, PartialEq, Eq)]
pub struct SkillWithLevel {
    pub skill: Skill,
    pub pack_id: String,
    pub pack_name: String,
    pub current_level: u32,
    pub current_points: u32,
    pub max_points: u32,
    pub next_threshold: Option<LevelThreshold>,
}

#[derive(Debug, Clone, PartialEq, Eq)]
pub struct SkillData {
    pub skills: Vec<SkillWithLevel>,
}

pub open spec fn contains_name(names: Seq<String>, s: Seq<char>) -> bool {
    exists|k: int| 0 <= k < names.len() && (#[trigger] names[k])@ == s
}

// ---------------------------------------------------------------------------
// The checks, in the order they are made
// ---------------------------------------------------------------------------

pub open spec fn prefix_of(pack_id: Seq<char>) -> Seq<char> {
    pack_id + "::"@
}

pub open spec fn starts_with(s: Seq<char>, prefix: Seq<char>) -> bool {
    prefix.len() <= s.len() && s.take(prefix.len() as int) == prefix
}

/// The first window of thresholds whose points do not increase.
pub open spec fn first_flat_window(t: Seq<LevelThreshold>) -> Option<int>
    decreases t.len(),
{
    if t.len() < 2 {
        None
    } else {
        match first_flat_window(t.drop_last()) {
            Some(k) => Some(k),
            None => {
                let k = t.len() - 2;
                if t[k + 1].points_required <= t[k].points_required { Some(k) } else { None }
            },
        }
    }
}

/// Node `k` repeats the id of an earlier node.
pub open spec fn node_repeats(nodes: Seq<SkillNode>, k: int) -> bool {
    exists|j: int| 0 <= j < k && (#[trigger] nodes[j]).node_id@ == nodes[k].node_id@
}

/// Node `k` is refused: its id repeats, or its achievement is not the pack's.
pub open spec fn node_bad(nodes: Seq<SkillNode>, ach: Seq<String>, k: int) -> bool {
    node_repeats(nodes, k) || !contains_name(ach, nodes[k].achievement_id@)
}

/// The first refused node.
pub open spec fn first_bad_node(nodes: Seq<SkillNode>, ach: Seq<String>, n: int) -> Option<int>
    decreases n,
{
    if n <= 0 {
        None
    } else {
        match first_bad_node(nodes, ach, n - 1) {
            Some(k) => Some(k),
            None => if node_bad(nodes, ach, n - 1) { Some(n - 1) } else { None },
        }
    }
}

/// The first key achievement of the thresholds that is not the pack's, as
/// (threshold, key).
pub open spec fn first_missing_key(t: Seq<LevelThreshold>, ach: Seq<String>, n: int) -> Option<(int, int)>
    decreases n,
{
    if n <= 0 {
        None
    } else {
        match first_missing_key(t, ach, n - 1) {
            Some(p) => Some(p),
            None => match first_missing_in(t[n - 1].required_key_achievements@, ach, t[n - 1].required_key_achievements@.len() as int) {
                Some(j) => Some((n - 1, j)),
                None => None,
            },
        }
    }
}

pub open spec fn first_missing_in(keys: Seq<String>, ach: Seq<String>, n: int) -> Option<int>
    decreases n,
{
    if n <= 0 {
        None
    } else {
        match first_missing_in(keys, ach, n - 1) {
            Some(j) => Some(j),
            None => if !contains_name(ach, keys[n - 1]@) { Some(n - 1) } else { None },
        }
    }
}

/// The refusal of a skill, if any: the first check it fails, by its message.
pub open spec fn skill_refusal(pack_id: Seq<char>, ach: Seq<String>, s: Skill) -> Option<Seq<char>> {
    let id = s.id@;
    let t = s.level_thresholds@;
    let nodes = s.nodes@;
    if !starts_with(id, prefix_of(pack_id)) {
        Some("Skill '"@ + id + "' in pack '"@ + pack_id + "' must start with '"@ + prefix_of(pack_id) + "'"@)
    } else if t.len() != s.max_level {
        Some("Skill '"@ + id + "': level_thresholds count ("@ + decimal_digits(t.len()) + ") != max_level ("@
            + decimal_digits(s.max_level as nat) + ")"@)
    } else if first_flat_window(t) is Some {
        let k = first_flat_window(t)->0;
        Some("Skill '"@ + id + "': level_thresholds points_required not monotonically increasing ("@
            + decimal_digits(t[k + 1].points_required as nat) + " >= "@ + decimal_digits(t[k].points_required as nat) + ")"@)
    } else if first_bad_node(nodes, ach, nodes.len() as int) is Some {
        let k = first_bad_node(nodes, ach, nodes.len() as int)->0;
        if node_repeats(nodes, k) {
            Some("Skill '"@ + id + "': duplicate node_id '"@ + nodes[k].node_id@ + "'"@)
        } else {
            Some("Skill '"@ + id + "': node '"@ + nodes[k].node_id@ + "' references unknown achievement '"@
                + nodes[k].achievement_id@ + "'"@)
        }
    } else if first_missing_key(t, ach, t.len() as int) is Some {
        let (i, j) = first_missing_key(t, ach, t.len() as int)->0;
        Some("Skill '"@ + id + "': level "@ + decimal_digits(t[i].level as nat) + " required_key_achievement '"@
            + t[i].required_key_achievements@[j]@ + "' not found"@)
    } else {
        None
    }
}

// ---------------------------------------------------------------------------
// The level
// ---------------------------------------------------------------------------

/// The points of the nodes among the first `n` whose achievement is
/// unlocked (or all of them, when `all`).
pub open spec fn points_of(nodes: Seq<SkillNode>, unlocked: Seq<String>, all: bool, n: int) -> int
    decreases n,
{
    if n <= 0 {
        0
    } else {
        points_of(nodes, unlocked, all, n - 1)
            + if all || contains_name(unlocked, nodes[n - 1].achievement_id@) { nodes[n - 1].points as int } else { 0 }
    }
}

/// Every key achievement of the first `n` thresholds is unlocked.
pub open spec fn keys_unlocked(t: Seq<LevelThreshold>, unlocked: Seq<String>, n: int) -> bool {
    forall|i: int, j: int| 0 <= i < n && 0 <= j < t[i].required_key_achievements@.len()
        ==> contains_name(unlocked, (#[trigger] t[i].required_key_achievements@[j])@)
}

/// How many thresholds, from the first, are reached: each needs its points
/// and every key achievement up to it.
pub open spec fn reached(t: Seq<LevelThreshold>, unlocked: Seq<String>, points: int, n: int) -> int
    decreases n,
{
    if n <= 0 {
        0
    } else {
        let r = reached(t, unlocked, points, n - 1);
        if r == n - 1 && points >= t[n - 1].points_required && keys_unlocked(t, unlocked, n) { n } else { r }
    }
}

/// The level: that of the last threshold reached, or 0.
pub open spec fn level_spec(t: Seq<LevelThreshold>, unlocked: Seq<String>, points: int) -> int {
    let r = reached(t, unlocked, points, t.len() as int);
    if r == 0 { 0 } else { t[r - 1].level as int }
}

/// The first threshold among the first `n` of the given level.
pub open spec fn first_of_level(t: Seq<LevelThreshold>, level: int, n: int) -> Option<int>
    decreases n,
{
    if n <= 0 {
        None
    } else {
        match first_of_level(t, level, n - 1) {
            Some(i) => Some(i),
            None => if t[n - 1].level == level { Some(n - 1) } else { None },
        }
    }
}

/// Two thresholds agree, key achievements compared as strings.
pub open spec fn same_threshold(a: LevelThreshold, b: LevelThreshold) -> bool {
    a.level == b.level && a.points_required == b.points_required
        && a.required_key_achievements@ == b.required_key_achievements@
}

/// What an accepted skill reports.
pub open spec fn skill_level_holds(pack_id: Seq<char>, pack_name: Seq<char>, unlocked: Seq<String>, s: Skill, w: SkillWithLevel) -> bool {
    let t = s.level_thresholds@;
    let nodes = s.nodes@;
    let points = points_of(nodes, unlocked, false, nodes.len() as int);
    let level = level_spec(t, unlocked, points);
    &&& w.skill == s
    &&& w.pack_id@ == pack_id
    &&& w.pack_name@ == pack_name
    &&& w.current_points == points
    &&& w.max_points == points_of(nodes, unlocked, true, nodes.len() as int)
    &&& w.current_level == level
    &&& match first_of_level(t, level + 1, t.len() as int) {
        Some(i) => w.next_threshold matches Some(nt) && same_threshold(nt, t[i]),
        None => w.next_threshold is None,
    }
}

// ---------------------------------------------------------------------------
// Checking and levelling a skill
// ---------------------------------------------------------------------------

pub fn contains_name_exec(names: &Vec<String>, s: &str) -> (r: bool)
    ensures
        r == contains_name(names@, s@),
{
    let mut k: usize = 0;
    while k < names.len()
        invariant
            k <= names@.len(),
            forall|j: int| 0 <= j < k ==> (#[trigger] names@[j])@ != s@,
        decreases names.len() - k,
    {
        if str_eq(names[k].as_str(), s) {
            return true;
        }
        k = k + 1;
    }
    false
}

pub(crate) fn starts_with_exec(s: &str, prefix: &str) -> (r: bool)
    ensures
        r == starts_with(s@, prefix@),
{
    let n = prefix.unicode_len();
    if n > s.unicode_len() {
        return false;
    }
    let head = s.substring_char(0, n);
    proof { assert(head@ =~= s@.take(n as int)); }
    str_eq(head, prefix)
}

pub(crate) fn push_str(out: &mut String, piece: &str)
    ensures
        final(out)@ == old(out)@ + piece@,
{
    out.append(piece);
}

fn push_number(out: &mut String, n: u64)
    ensures
        final(out)@ == old(out)@ + decimal_digits(n as nat),
{
    let digits = decimal_text(n);
    out.append(digits.as_str());
}

fn copy_threshold(t: &LevelThreshold) -> (r: LevelThreshold)
    ensures
        same_threshold(r, *t),
{
    LevelThreshold {
        level: t.level,
        points_required: t.points_required,
        required_key_achievements: crate::pack::copy_strings(&t.required_key_achievements),
    }
}

/// The refusal of a skill, by the first check it fails.
fn check_skill(pack_id: &str, ach: &Vec<String>, s: &Skill) -> (r: Option<String>)
    ensures
        match skill_refusal(pack_id@, ach@, *s) {
            Some(msg) => r matches Some(m) && m@ == msg,
            None => r is None,
        },
{
    let id = s.id.as_str();
    let mut prefix = String::from_str(pack_id);
    prefix.append("::");
    if !starts_with_exec(id, prefix.as_str()) {
        let mut m = String::from_str("Skill '");
        push_str(&mut m, id);
        push_str(&mut m, "' in pack '");
        push_str(&mut m, pack_id);
        push_str(&mut m, "' must start with '");
        push_str(&mut m, prefix.as_str());
        push_str(&mut m, "'");
        return Some(m);
    }
    let t = &s.level_thresholds;
    if t.len() as u64 != s.max_level as u64 {
        let mut m = String::from_str("Skill '");
        push_str(&mut m, id);
        push_str(&mut m, "': level_thresholds count (");
        push_number(&mut m, t.len() as u64);
        push_str(&mut m, ") != max_level (");
        push_number(&mut m, s.max_level as u64);
        push_str(&mut m, ")");
        return Some(m);
    }
    // Points must increase from one threshold to the next.
    let mut k: usize = 1;
    if t.len() > 0 {
        proof { assert(t@.take(1).len() == 1); }
    }
    while k < t.len()
        invariant
            1 <= k,
            k <= t@.len() || t@.len() == 0,
            t@.len() > 0 ==> first_flat_window(t@.take(k as int)) is None,
            id@ == s.id@,
            t@ == s.level_thresholds@,
            starts_with(id@, prefix_of(pack_id@)),
            t@.len() == s.max_level,
        decreases t.len() - k,
    {
        proof {
            assert(t@.take(k + 1).drop_last() =~= t@.take(k as int));
        }
        if t[k].points_required <= t[k - 1].points_required {
            proof {
                assert(first_flat_window(t@.take(k + 1)) == Some((k - 1) as int));
                lemma_flat_window_prefix(t@, k + 1);
            }
            let mut m = String::from_str("Skill '");
            push_str(&mut m, id);
            push_str(&mut m, "': level_thresholds points_required not monotonically increasing (");
            push_number(&mut m, t[k].points_required as u64);
            push_str(&mut m, " >= ");
            push_number(&mut m, t[k - 1].points_required as u64);
            push_str(&mut m, ")");
            return Some(m);
        }
        k = k + 1;
    }
    proof {
        if t@.len() >= 1 {
            assert(t@.take(t@.len() as int) =~= t@);
        } else {
            assert(first_flat_window(t@) is None);
        }
    }
    // Node ids are unique, and each node names an achievement of the pack.
    let nodes = &s.nodes;
    let mut n: usize = 0;
    while n < nodes.len()
        invariant
            n <= nodes@.len(),
            first_bad_node(nodes@, ach@, n as int) is None,
            id@ == s.id@,
            t@ == s.level_thresholds@,
            nodes@ == s.nodes@,
            starts_with(id@, prefix_of(pack_id@)),
            t@.len() == s.max_level,
            first_flat_window(t@) is None,
        decreases nodes.len() - n,
    {
        let mut j: usize = 0;
        while j < n && !str_eq(nodes[j].node_id.as_str(), nodes[n].node_id.as_str())
            invariant
                j <= n < nodes@.len(),
                forall|i: int| 0 <= i < j ==> (#[trigger] nodes@[i]).node_id@ != nodes@[n as int].node_id@,
            decreases n - j,
        {
            j = j + 1;
        }
        if j < n {
            proof {
                assert(node_repeats(nodes@, n as int));
                lemma_bad_node_prefix(nodes@, ach@, n as int, nodes@.len() as int);
            }
            let mut m = String::from_str("Skill '");
            push_str(&mut m, id);
            push_str(&mut m, "': duplicate node_id '");
            push_str(&mut m, nodes[n].node_id.as_str());
            push_str(&mut m, "'");
            return Some(m);
        }
        assert(!node_repeats(nodes@, n as int));
        if !contains_name_exec(ach, nodes[n].achievement_id.as_str()) {
            proof { lemma_bad_node_prefix(nodes@, ach@, n as int, nodes@.len() as int); }
            let mut m = String::from_str("Skill '");
            push_str(&mut m, id);
            push_str(&mut m, "': node '");
            push_str(&mut m, nodes[n].node_id.as_str());
            push_str(&mut m, "' references unknown achievement '");
            push_str(&mut m, nodes[n].achievement_id.as_str());
            push_str(&mut m, "'");
            return Some(m);
        }
        n = n + 1;
    }
    // Key achievements are the pack's.
    let mut a: usize = 0;
    while a < t.len()
        invariant
            a <= t@.len(),
            first_missing_key(t@, ach@, a as int) is None,
            id@ == s.id@,
            t@ == s.level_thresholds@,
            nodes@ == s.nodes@,
            starts_with(id@, prefix_of(pack_id@)),
            t@.len() == s.max_level,
            first_flat_window(t@) is None,
            first_bad_node(nodes@, ach@, nodes@.len() as int) is None,
        decreases t.len() - a,
    {
        let keys = &t[a].required_key_achievements;
        let mut b: usize = 0;
        while b < keys.len()
            invariant
                a < t@.len(),
                keys@ == t@[a as int].required_key_achievements@,
                b <= keys@.len(),
                first_missing_in(keys@, ach@, b as int) is None,
                first_missing_key(t@, ach@, a as int) is None,
                id@ == s.id@,
                t@ == s.level_thresholds@,
                nodes@ == s.nodes@,
                starts_with(id@, prefix_of(pack_id@)),
                t@.len() == s.max_level,
                first_flat_window(t@) is None,
                first_bad_node(nodes@, ach@, nodes@.len() as int) is None,
            decreases keys.len() - b,
        {
            if !contains_name_exec(ach, keys[b].as_str()) {
                proof {
                    assert(first_missing_in(keys@, ach@, b + 1) == Some(b as int));
                    lemma_missing_in_prefix(keys@, ach@, b + 1, keys@.len() as int);
                    assert(first_missing_key(t@, ach@, a + 1) == Some((a as int, b as int)));
                    lemma_missing_key_prefix(t@, ach@, a + 1, t@.len() as int);
                }
                let mut m = String::from_str("Skill '");
                push_str(&mut m, id);
                push_str(&mut m, "': level ");
                push_number(&mut m, t[a].level as u64);
                push_str(&mut m, " required_key_achievement '");
                push_str(&mut m, keys[b].as_str());
                push_str(&mut m, "' not found");
                return Some(m);
            }
            b = b + 1;
        }
        proof {
            assert(keys@.take(keys@.len() as int) =~= keys@);
        }
        a = a + 1;
    }
    None
}

proof fn lemma_flat_window_prefix(t: Seq<LevelThreshold>, k: int)
    requires
        2 <= k <= t.len(),
        first_flat_window(t.take(k)) is Some,
    ensures
        first_flat_window(t) == first_flat_window(t.take(k)),
    decreases t.len() - k,
{
    if k < t.len() {
        assert(t.take(k + 1).drop_last() =~= t.take(k));
        lemma_flat_window_prefix(t, k + 1);
    } else {
        assert(t.take(k) =~= t);
    }
}

proof fn lemma_bad_node_prefix(nodes: Seq<SkillNode>, ach: Seq<String>, k: int, n: int)
    requires
        0 <= k < n,
        first_bad_node(nodes, ach, k) is None,
        node_bad(nodes, ach, k),
    ensures
        first_bad_node(nodes, ach, n) == Some(k),
    decreases n - k,
{
    if n > k + 1 {
        lemma_bad_node_prefix(nodes, ach, k, n - 1);
    }
}

proof fn lemma_missing_in_prefix(keys: Seq<String>, ach: Seq<String>, k: int, n: int)
    requires
        0 < k <= n,
        first_missing_in(keys, ach, k) is Some,
    ensures
        first_missing_in(keys, ach, n) == first_missing_in(keys, ach, k),
    decreases n - k,
{
    if n > k {
        lemma_missing_in_prefix(keys, ach, k, n - 1);
    }
}

proof fn lemma_missing_key_prefix(t: Seq<LevelThreshold>, ach: Seq<String>, k: int, n: int)
    requires
        0 < k <= n,
        first_missing_key(t, ach, k) is Some,
    ensures
        first_missing_key(t, ach, n) == first_missing_key(t, ach, k),
    decreases n - k,
{
    if n > k {
        lemma_missing_key_prefix(t, ach, k, n - 1);
    }
}

proof fn lemma_points_bounds(nodes: Seq<SkillNode>, unlocked: Seq<String>, k: int, n: int)
    requires
        0 <= k <= n,
    ensures
        0 <= points_of(nodes, unlocked, false, k) <= points_of(nodes, unlocked, true, k),
        points_of(nodes, unlocked, true, k) <= points_of(nodes, unlocked, true, n),
    decreases n,
{
    if n > k {
        lemma_points_bounds(nodes, unlocked, k, n - 1);
    } else if k > 0 {
        lemma_points_bounds(nodes, unlocked, k - 1, k - 1);
    }
}

proof fn lemma_reached_stops(t: Seq<LevelThreshold>, unlocked: Seq<String>, points: int, k: int, n: int)
    requires
        0 <= k < n,
        reached(t, unlocked, points, k + 1) == k,
    ensures
        reached(t, unlocked, points, n) == k,
    decreases n - k,
{
    if n > k + 1 {
        lemma_reached_stops(t, unlocked, points, k, n - 1);
    }
}

proof fn lemma_first_of_level_prefix(t: Seq<LevelThreshold>, level: int, k: int, n: int)
    requires
        0 < k <= n,
        first_of_level(t, level, k) is Some,
    ensures
        first_of_level(t, level, n) == first_of_level(t, level, k),
    decreases n - k,
{
    if n > k {
        lemma_first_of_level_prefix(t, level, k, n - 1);
    }
}

/// A skill's progress against the unlocked achievements: the points of its
/// unlocked nodes, the points of all its nodes, and its level, the last of
/// the thresholds met one after another (points, and the key achievements
/// of that threshold and every one before it).
pub fn skill_progress(skill: &Skill, unlocked_ids: &Vec<String>) -> (r: (u32, u32, u32))
    requires
        skill_fits_counters(*skill, unlocked_ids@),
    ensures
        r.0 == points_of(skill.nodes@, unlocked_ids@, false, skill.nodes@.len() as int),
        r.1 == points_of(skill.nodes@, unlocked_ids@, true, skill.nodes@.len() as int),
        r.2 == level_spec(skill.level_thresholds@, unlocked_ids@, r.0 as int),
        r.2 < u32::MAX,
{
    let ghost nodes = skill.nodes@;
    let ghost t = skill.level_thresholds@;
    let ghost unlocked = unlocked_ids@;
    let ghost total_all = points_of(nodes, unlocked, true, nodes.len() as int);
    // Points.
    let mut current: u32 = 0;
    let mut max_points: u32 = 0;
    let mut k: usize = 0;
    while k < skill.nodes.len()
        invariant
            k <= nodes.len(),
            nodes == skill.nodes@,
            unlocked == unlocked_ids@,
            total_all == points_of(nodes, unlocked, true, nodes.len() as int),
            total_all <= u32::MAX,
            current == points_of(nodes, unlocked, false, k as int),
            max_points == points_of(nodes, unlocked, true, k as int),
        decreases skill.nodes.len() - k,
    {
        proof { lemma_points_bounds(nodes, unlocked, k + 1, nodes.len() as int); }
        let node = &skill.nodes[k];
        if contains_name_exec(unlocked_ids, node.achievement_id.as_str()) {
            current = current + node.points;
        }
        max_points = max_points + node.points;
        k = k + 1;
    }
    // Level.
    let ghost points = current as int;
    let mut level: u32 = 0;
    let mut a: usize = 0;
    let mut keys_ok = true;
    while a < skill.level_thresholds.len()
        invariant_except_break
            keys_ok,
        invariant
            a <= t.len(),
            t == skill.level_thresholds@,
            unlocked == unlocked_ids@,
            points == current as int,
            forall|i: int| 0 <= i < t.len() ==> (#[trigger] t[i]).level < u32::MAX,
            keys_ok ==> keys_unlocked(t, unlocked, a as int),
            reached(t, unlocked, points, a as int) == a,
            level == (if a == 0 { 0 } else { t[a - 1].level as int }),
        ensures
            reached(t, unlocked, points, t.len() as int) == a,
            level == (if a == 0 { 0 } else { t[a - 1].level as int }),
        decreases skill.level_thresholds.len() - a,
    {
        let threshold = &skill.level_thresholds[a];
        let keys = &threshold.required_key_achievements;
        let mut b: usize = 0;
        while b < keys.len() && contains_name_exec(unlocked_ids, keys[b].as_str())
            invariant
                b <= keys@.len(),
                keys@ == t[a as int].required_key_achievements@,
                a < t.len(),
                forall|j: int| 0 <= j < b ==> contains_name(unlocked, (#[trigger] keys@[j])@),
                unlocked == unlocked_ids@,
            decreases keys.len() - b,
        {
            b = b + 1;
        }
        let these_ok = b == keys.len();
        proof {
            if these_ok {
                assert forall|i: int, j: int| 0 <= i < a + 1 && 0 <= j < t[i].required_key_achievements@.len()
                    implies contains_name(unlocked, (#[trigger] t[i].required_key_achievements@[j])@) by {
                    if i < a {
                        assert(keys_unlocked(t, unlocked, a as int));
                    }
                }
            } else {
                assert(!contains_name(unlocked, keys@[b as int]@));
                assert(!keys_unlocked(t, unlocked, a + 1));
            }
        }
        if current >= threshold.points_required && these_ok {
            level = threshold.level;
            a = a + 1;
        } else {
            proof {
                assert(reached(t, unlocked, points, a + 1) == a);
                if a + 1 < t.len() {
                    lemma_reached_stops(t, unlocked, points, a as int, t.len() as int);
                }
            }
            keys_ok = false;
            break;
        }
    }
    (current, max_points, level)
}

/// One skill of a loaded pack: check it against its pack, then compute
/// its points and level.
pub fn evaluate_skill(
    pack_id: &str,
    pack_name: &str,
    pack_achievement_ids: &Vec<String>,
    unlocked_ids: &Vec<String>,
    skill: Skill,
) -> (r: Result<SkillWithLevel, String>)
    requires
        points_of(skill.nodes@, unlocked_ids@, true, skill.nodes@.len() as int) <= u32::MAX,
        forall|i: int| 0 <= i < skill.level_thresholds@.len() ==> (#[trigger] skill.level_thresholds@[i]).level < u32::MAX,
    ensures
        match skill_refusal(pack_id@, pack_achievement_ids@, skill) {
            Some(msg) => r matches Err(e) && e@ == msg,
            None => r matches Ok(w) && skill_level_holds(pack_id@, pack_name@, unlocked_ids@, skill, w),
        },
{
    match check_skill(pack_id, pack_achievement_ids, &skill) {
        Some(m) => return Err(m),
        None => {},
    }
    let (current, max_points, level) = skill_progress(&skill, unlocked_ids);
    let ghost t = skill.level_thresholds@;
    // The next threshold.
    let next_level: u32 = level + 1;
    let mut f: usize = 0;
    while f < skill.level_thresholds.len() && skill.level_thresholds[f].level != next_level
        invariant
            f <= t.len(),
            t == skill.level_thresholds@,
            first_of_level(t, next_level as int, f as int) is None,
        decreases skill.level_thresholds.len() - f,
    {
        f = f + 1;
    }
    let next_threshold = if f < skill.level_thresholds.len() {
        proof {
            assert(first_of_level(t, next_level as int, f + 1) == Some(f as int));
            lemma_first_of_level_prefix(t, next_level as int, f + 1, t.len() as int);
        }
        Some(copy_threshold(&skill.level_thresholds[f]))
    } else {
        None
    };
    Ok(SkillWithLevel {
        skill,
        pack_id: String::from_str(pack_id),
        pack_name: String::from_str(pack_name),
        current_level: level,
        current_points: current,
        max_points,
        next_threshold,
    })
}

/// The first refused skill among the first `n`.
pub open spec fn first_refused(pack_id: Seq<char>, ach: Seq<String>, skills: Seq<Skill>, n: int) -> Option<int>
    decreases n,
{
    if n <= 0 {
        None
    } else {
        match first_refused(pack_id, ach, skills, n - 1) {
            Some(k) => Some(k),
            None => if skill_refusal(pack_id, ach, skills[n - 1]) is Some { Some(n - 1) } else { None },
        }
    }
}

pub open spec fn skill_fits_counters(s: Skill, unlocked: Seq<String>) -> bool {
    &&& points_of(s.nodes@, unlocked, true, s.nodes@.len() as int) <= u32::MAX
    &&& forall|i: int| 0 <= i < s.level_thresholds@.len() ==> (#[trigger] s.level_thresholds@[i]).level < u32::MAX
}

/// Whether a skill's counters fit: the points of all its nodes, and each
/// threshold's level and the one after it, within `u32`.
pub fn skill_fits_counters_exec(skill: &Skill, unlocked_ids: &Vec<String>) -> (r: bool)
    ensures
        r == skill_fits_counters(*skill, unlocked_ids@),
{
    let ghost nodes = skill.nodes@;
    let mut total: u64 = 0;
    let mut k: usize = 0;
    while k < skill.nodes.len()
        invariant
            k <= nodes.len(),
            nodes == skill.nodes@,
            total == points_of(nodes, unlocked_ids@, true, k as int),
            total <= u32::MAX,
        decreases nodes.len() - k,
    {
        total = total + skill.nodes[k].points as u64;
        k = k + 1;
        if total > u32::MAX as u64 {
            proof { lemma_points_of_grows(nodes, unlocked_ids@, k as int, nodes.len() as int); }
            return false;
        }
    }
    let mut j: usize = 0;
    while j < skill.level_thresholds.len()
        invariant
            j <= skill.level_thresholds@.len(),
            forall|i: int| 0 <= i < j ==> (#[trigger] skill.level_thresholds@[i]).level < u32::MAX,
        decreases skill.level_thresholds@.len() - j,
    {
        if skill.level_thresholds[j].level == u32::MAX {
            return false;
        }
        j = j + 1;
    }
    true
}

/// Taking in more nodes never lowers the total of all points.
proof fn lemma_points_of_grows(nodes: Seq<SkillNode>, unlocked: Seq<String>, k: int, n: int)
    requires
        0 <= k <= n,
    ensures
        points_of(nodes, unlocked, true, k) <= points_of(nodes, unlocked, true, n),
    decreases n - k,
{
    if k < n {
        lemma_points_of_grows(nodes, unlocked, k, n - 1);
    }
}

proof fn lemma_first_refused_prefix(pack_id: Seq<char>, ach: Seq<String>, skills: Seq<Skill>, k: int, n: int)
    requires
        0 < k <= n,
        first_refused(pack_id, ach, skills, k) is Some,
    ensures
        first_refused(pack_id, ach, skills, n) == first_refused(pack_id, ach, skills, k),
    decreases n - k,
{
    if n > k {
        lemma_first_refused_prefix(pack_id, ach, skills, k, n - 1);
    }
}

/// The skills of one loaded pack, in order: the first refused skill refuses
/// them all.
pub fn evaluate_pack_skills(
    pack_id: &str,
    pack_name: &str,
    pack_achievement_ids: &Vec<String>,
    unlocked_ids: &Vec<String>,
    skills: Vec<Skill>,
) -> (r: Result<Vec<SkillWithLevel>, String>)
    requires
        forall|i: int| 0 <= i < skills@.len() ==> skill_fits_counters(#[trigger] skills@[i], unlocked_ids@),
    ensures
        match first_refused(pack_id@, pack_achievement_ids@, skills@, skills@.len() as int) {
            Some(k) => r matches Err(e) && skill_refusal(pack_id@, pack_achievement_ids@, skills@[k]) == Some(e@),
            None => r matches Ok(ws) && ws@.len() == skills@.len()
                && forall|i: int| 0 <= i < skills@.len()
                    ==> #[trigger] skill_level_holds(pack_id@, pack_name@, unlocked_ids@, skills@[i], ws@[i]),
        },
{
    let ghost all = skills@;
    let mut rest = skills;
    let mut out: Vec<SkillWithLevel> = Vec::new();
    let mut failure: Option<String> = None;
    let mut k: usize = 0;
    let n = rest.len();
    while k < n
        invariant_except_break
            failure is None,
            rest@ == all.skip(k as int),
        invariant
            n == all.len(),
            k <= n,
            forall|i: int| 0 <= i < all.len() ==> skill_fits_counters(#[trigger] all[i], unlocked_ids@),
            failure is None ==> first_refused(pack_id@, pack_achievement_ids@, all, k as int) is None,
            out@.len() == k,
            forall|i: int| 0 <= i < k ==> #[trigger] skill_level_holds(pack_id@, pack_name@, unlocked_ids@, all[i], out@[i]),
        ensures
            failure is None ==> k == n && first_refused(pack_id@, pack_achievement_ids@, all, n as int) is None,
            failure matches Some(e) ==> (first_refused(pack_id@, pack_achievement_ids@, all, n as int) matches Some(j)
                && skill_refusal(pack_id@, pack_achievement_ids@, all[j]) == Some(e@)),
        decreases n - k,
    {
        let skill = rest.remove(0);
        proof {
            assert(skill == all[k as int]);
            assert(rest@ =~= all.skip(k + 1));
            assert(skill_fits_counters(all[k as int], unlocked_ids@));
        }
        match evaluate_skill(pack_id, pack_name, pack_achievement_ids, unlocked_ids, skill) {
            Ok(w) => {
                out.push(w);
            },
            Err(e) => {
                proof {
                    assert(first_refused(pack_id@, pack_achievement_ids@, all, k + 1) == Some(k as int));
                    lemma_first_refused_prefix(pack_id@, pack_achievement_ids@, all, k + 1, n as int);
                }
                failure = Some(e);
                break;
            },
        }
        k = k + 1;
    }
    match failure {
        Some(e) => Err(e),
        None => Ok(out),
    }
}

} // verus!
