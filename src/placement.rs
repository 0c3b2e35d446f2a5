//! Choosing the backend and the key prefix of a new video.
use vstd::prelude::*;
use crate::config::{PrefixRule, StorageRule};
use crate::model::{Program, Video};
use crate::text::same_text;

verus! {

/// A mounted backend as placement sees it: its label, and its identifier when it can be read
/// right now.
#[derive(Debug)]
pub struct Mounted {
    pub label: String,
    pub storage_id: Option<u128>,
}

/// Index of the first storage rule at or after `i` whose condition holds.
pub open spec fn first_storage_rule(
    rules: Seq<StorageRule>,
    p: Program,
    v: Video,
    local: Option<i64>,
    i: int,
) -> Option<int>
    decreases rules.len() - i,
{
    if i < 0 || i >= rules.len() {
        None
    } else if rules[i].condition.holds(p, v, local) {
        Some(i)
    } else {
        first_storage_rule(rules, p, v, local, i + 1)
    }
}

/// Whether the backend `m` is the one `rule` names, and is mounted: by label when the rule has
/// one, else by identifier.
pub open spec fn names(rule: StorageRule, m: Mounted) -> bool {
    if rule.storage_label@.len() > 0 {
        m.label@ == rule.storage_label@ && m.storage_id is Some
    } else {
        m.storage_id == Some(rule.storage_id)
    }
}

/// Index of the first backend at or after `k` that `rule` names.
pub open spec fn first_named(rule: StorageRule, ms: Seq<Mounted>, k: int) -> Option<int>
    decreases ms.len() - k,
{
    if k < 0 || k >= ms.len() {
        None
    } else if names(rule, ms[k]) {
        Some(k)
    } else {
        first_named(rule, ms, k + 1)
    }
}

/// The backend a new video goes to: the mounted one the first matching rule names, or the
/// first backend when no rule matches or the named backend is not mounted.
pub open spec fn placement(
    rules: Seq<StorageRule>,
    ms: Seq<Mounted>,
    p: Program,
    v: Video,
    local: Option<i64>,
) -> int {
    match first_storage_rule(rules, p, v, local, 0) {
        Some(i) => match first_named(rules[i], ms, 0) {
            Some(k) => k,
            None => 0,
        },
        None => 0,
    }
}

/// Index of the first prefix rule at or after `i` whose condition holds.
pub open spec fn first_prefix_rule(
    rules: Seq<PrefixRule>,
    p: Program,
    v: Video,
    local: Option<i64>,
    i: int,
) -> Option<int>
    decreases rules.len() - i,
{
    if i < 0 || i >= rules.len() {
        None
    } else if rules[i].condition.holds(p, v, local) {
        Some(i)
    } else {
        first_prefix_rule(rules, p, v, local, i + 1)
    }
}

/// The prefix of the first matching prefix rule, or the empty prefix.
pub open spec fn prefix_for(
    rules: Seq<PrefixRule>,
    p: Program,
    v: Video,
    local: Option<i64>,
) -> Seq<char> {
    match first_prefix_rule(rules, p, v, local, 0) {
        Some(i) => rules[i].prefix@,
        None => Seq::empty(),
    }
}

/// Two video records that conditions cannot tell apart: placement fields aside, they agree on
/// what matchers read.
pub open spec fn same_to_conditions(v1: Video, v2: Video) -> bool {
    v1.total_length == v2.total_length && v1.mime_type@ == v2.mime_type@ && v1.provider_id@
        == v2.provider_id@
}

proof fn lemma_condition_blind(c: crate::condition::Condition, p: Program, v1: Video, v2: Video, local: Option<i64>)
    requires
        same_to_conditions(v1, v2),
    ensures
        c.holds(p, v1, local) == c.holds(p, v2, local),
{
    assert forall|i: int| 0 <= i < c.matchers@.len() implies crate::condition::matcher_holds(
        #[trigger] c.matchers@[i],
        p,
        v1,
        local,
    ) == crate::condition::matcher_holds(c.matchers@[i], p, v2, local) by {}
}

proof fn lemma_first_storage_rule_blind(
    rules: Seq<StorageRule>,
    p: Program,
    v1: Video,
    v2: Video,
    local: Option<i64>,
    i: int,
)
    requires
        same_to_conditions(v1, v2),
    ensures
        first_storage_rule(rules, p, v1, local, i) == first_storage_rule(rules, p, v2, local, i),
    decreases rules.len() - i,
{
    if 0 <= i < rules.len() {
        lemma_condition_blind(rules[i].condition, p, v1, v2, local);
        lemma_first_storage_rule_blind(rules, p, v1, v2, local, i + 1);
    }
}

proof fn lemma_first_prefix_rule_blind(
    rules: Seq<PrefixRule>,
    p: Program,
    v1: Video,
    v2: Video,
    local: Option<i64>,
    i: int,
)
    requires
        same_to_conditions(v1, v2),
    ensures
        first_prefix_rule(rules, p, v1, local, i) == first_prefix_rule(rules, p, v2, local, i),
    decreases rules.len() - i,
{
    if 0 <= i < rules.len() {
        lemma_condition_blind(rules[i].condition, p, v1, v2, local);
        lemma_first_prefix_rule_blind(rules, p, v1, v2, local, i + 1);
    }
}

/// Placement reads only what conditions read of a video.
pub proof fn lemma_placement_blind(
    rules: Seq<StorageRule>,
    prefix_rules: Seq<PrefixRule>,
    ms: Seq<Mounted>,
    p: Program,
    v1: Video,
    v2: Video,
    local: Option<i64>,
)
    requires
        same_to_conditions(v1, v2),
    ensures
        placement(rules, ms, p, v1, local) == placement(rules, ms, p, v2, local),
        prefix_for(prefix_rules, p, v1, local) == prefix_for(prefix_rules, p, v2, local),
{
    lemma_first_storage_rule_blind(rules, p, v1, v2, local, 0);
    lemma_first_prefix_rule_blind(prefix_rules, p, v1, v2, local, 0);
}

fn names_exec(rule: &StorageRule, m: &Mounted) -> (r: bool)
    ensures
        r == names(*rule, *m),
{
    if rule.storage_label.as_str().unicode_len() > 0 {
        m.storage_id.is_some() && same_text(m.label.as_str(), rule.storage_label.as_str())
    } else {
        match m.storage_id {
            Some(id) => id == rule.storage_id,
            None => false,
        }
    }
}

/// Index of the backend a new video goes to, the program starting at wall-clock second
/// `local` of the local time zone.
pub fn find_storage_by_rule(
    rules: &Vec<StorageRule>,
    mounted: &Vec<Mounted>,
    p: &Program,
    v: &Video,
    local: Option<i64>,
) -> (r: usize)
    requires
        mounted@.len() > 0,
    ensures
        r == placement(rules@, mounted@, *p, *v, local),
        r < mounted@.len(),
{
    let mut i: usize = 0;
    while i < rules.len()
        invariant
            i <= rules.len(),
            mounted@.len() > 0,
            first_storage_rule(rules@, *p, *v, local, 0) == first_storage_rule(
                rules@,
                *p,
                *v,
                local,
                i as int,
            ),
        decreases rules.len() - i,
    {
        if rules[i].condition.matches_at(p, v, local) {
            let rule = &rules[i];
            let mut k: usize = 0;
            while k < mounted.len()
                invariant
                    k <= mounted.len(),
                    mounted@.len() > 0,
                    i < rules@.len(),
                    *rule == rules@[i as int],
                    first_storage_rule(rules@, *p, *v, local, 0) == Some(i as int),
                    first_named(*rule, mounted@, 0) == first_named(*rule, mounted@, k as int),
                decreases mounted.len() - k,
            {
                if names_exec(rule, &mounted[k]) {
                    return k;
                }
                k += 1;
            }
            return 0;
        }
        i += 1;
    }
    0
}

/// The key prefix of a new video, the program starting at wall-clock second `local` of the
/// local time zone.
pub fn find_prefix_by_rule(
    rules: &Vec<PrefixRule>,
    p: &Program,
    v: &Video,
    local: Option<i64>,
) -> (r: String)
    ensures
        r@ == prefix_for(rules@, *p, *v, local),
{
    let mut i: usize = 0;
    while i < rules.len()
        invariant
            i <= rules.len(),
            first_prefix_rule(rules@, *p, *v, local, 0) == first_prefix_rule(
                rules@,
                *p,
                *v,
                local,
                i as int,
            ),
        decreases rules.len() - i,
    {
        if rules[i].condition.matches_at(p, v, local) {
            return rules[i].prefix.clone();
        }
        i += 1;
    }
    String::new()
}

/// Index of the mounted backend whose identifier is `storage_id`.
pub fn find_storage_by_id(mounted: &Vec<Mounted>, storage_id: u128) -> (r: Option<usize>)
    ensures
        match r {
            Some(k) => k < mounted@.len() && mounted@[k as int].storage_id == Some(storage_id)
                && forall|j: int| 0 <= j < k ==> #[trigger] mounted@[j].storage_id != Some(storage_id),
            None => forall|j: int|
                0 <= j < mounted@.len() ==> #[trigger] mounted@[j].storage_id != Some(storage_id),
        },
{
    let mut k: usize = 0;
    while k < mounted.len()
        invariant
            k <= mounted.len(),
            forall|j: int| 0 <= j < k ==> #[trigger] mounted@[j].storage_id != Some(storage_id),
        decreases mounted.len() - k,
    {
        match mounted[k].storage_id {
            Some(id) => {
                if id == storage_id {
                    return Some(k);
                }
            },
            None => {},
        }
        k += 1;
    }
    None
}

} // verus!
