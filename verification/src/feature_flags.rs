//! Feature flags: a global switch, targeted users and a gradual rollout
//! per flag, with evaluation counts.

use vstd::prelude::*;
use vstd::string::*;
use std::hash::{Hash, Hasher};
use crate::decimal::{i64_decimal_chars};
use crate::error::ApiError;
use crate::ordering::{sorted_distinct, strictly_ascending, views};
use crate::table::Table;

verus! {

broadcast use vstd::string::group_string_axioms;

/// The flag every deployment knows, off unless configured.
pub const DEFAULT_FLAG_KEY: &'static str = "new_dashboard";

#[derive(Debug, Clone)]
pub struct FeatureFlag {
    pub key: String,
    pub is_enabled: bool,
    pub rollout_percentage: u8,
    pub targeted_users: Vec<u128>,
}

/// A configured flag.
#[derive(Debug, Clone)]
pub struct FeatureFlagEntry {
    pub key: String,
    pub is_enabled: bool,
    pub rollout_percentage: u8,
}

/// How often a flag was evaluated and how often it was on.
#[derive(Debug, Clone, Copy, PartialEq, Eq)]
pub struct FeatureFlagMetrics {
    pub evaluations: u64,
    pub hits: u64,
}

impl Default for FeatureFlagMetrics {
    fn default() -> (m: Self)
        ensures
            m.evaluations == 0,
            m.hits == 0,
    {
        FeatureFlagMetrics { evaluations: 0, hits: 0 }
    }
}

/// A flag's state with its counts.
#[derive(Debug, Clone)]
pub struct FlagStatus {
    pub key: String,
    pub is_enabled: bool,
    pub rollout_percentage: u8,
    pub evaluations: u64,
    pub hits: u64,
}

/// A user's bucket for gradual rollout: a hash of their id (`DefaultHasher`
/// over the UUID); the value is left open.
#[verifier::external_body]
fn user_bucket(user_id: u128) -> (h: u64) {
    let mut hasher = std::collections::hash_map::DefaultHasher::new();
    uuid::Uuid::from_u128(user_id).hash(&mut hasher);
    hasher.finish()
}

/// `rand::random::<u8>()`; the value is left open.
#[verifier::external_body]
fn random_byte() -> (b: u8) {
    rand::random::<u8>()
}

/// Whether a flag is on for a user, given the user's (or, without a user,
/// a random) bucket: off when disabled; on for targeted users; then by
/// rollout: all at 100 or more, none at 0, else buckets below the
/// percentage (mod 100).
pub open spec fn flag_on(flag: FeatureFlag, user_id: Option<u128>, bucket: u64) -> bool {
    if !flag.is_enabled {
        false
    } else if user_id matches Some(u) && flag.targeted_users@.contains(u) {
        true
    } else if flag.rollout_percentage >= 100 {
        true
    } else if flag.rollout_percentage == 0 {
        false
    } else {
        bucket % 100 < flag.rollout_percentage
    }
}

fn contains_user(users: &Vec<u128>, u: u128) -> (r: bool)
    ensures
        r == users@.contains(u),
{
    let mut i: usize = 0;
    while i < users.len()
        invariant
            i <= users@.len(),
            forall|j: int| 0 <= j < i ==> users@[j] != u,
        decreases users@.len() - i,
    {
        if users[i] == u {
            assert(users@[i as int] == u);
            return true;
        }
        i = i + 1;
    }
    false
}

pub fn rollout_decision(flag: &FeatureFlag, user_id: Option<u128>, bucket: u64) -> (on: bool)
    ensures
        on == flag_on(*flag, user_id, bucket),
{
    if !flag.is_enabled {
        return false;
    }
    if let Some(u) = user_id {
        if contains_user(&flag.targeted_users, u) {
            return true;
        }
    }
    if flag.rollout_percentage >= 100 {
        true
    } else if flag.rollout_percentage == 0 {
        false
    } else {
        bucket % 100 < flag.rollout_percentage as u64
    }
}

/// Counts after one evaluation with result `on` (wrapping like an atomic
/// counter).
pub open spec fn counted(m: FeatureFlagMetrics, on: bool) -> FeatureFlagMetrics {
    FeatureFlagMetrics {
        evaluations: if m.evaluations == u64::MAX { 0 } else { (m.evaluations + 1) as u64 },
        hits: if on {
            if m.hits == u64::MAX { 0 } else { (m.hits + 1) as u64 }
        } else {
            m.hits
        },
    }
}

pub open spec fn status_keys(s: Seq<FlagStatus>) -> Seq<Seq<char>> {
    s.map_values(|x: FlagStatus| x.key@)
}

/// The flags and their counts.
pub struct FeatureFlagManager {
    flags: Table<String, FeatureFlag>,
    metrics: Table<String, FeatureFlagMetrics>,
}

pub open spec fn metrics_or_zero(m: Map<Seq<char>, FeatureFlagMetrics>, k: Seq<char>) -> FeatureFlagMetrics {
    if m.contains_key(k) {
        m[k]
    } else {
        FeatureFlagMetrics { evaluations: 0, hits: 0 }
    }
}

impl FeatureFlagManager {
    pub closed spec fn wf(&self) -> bool {
        self.flags.wf() && self.metrics.wf()
    }

    pub closed spec fn flags(&self) -> Map<Seq<char>, FeatureFlag> {
        self.flags.view()
    }

    pub closed spec fn metrics(&self) -> Map<Seq<char>, FeatureFlagMetrics> {
        self.metrics.view()
    }

    /// The configured flags (later entries win), plus `new_dashboard`, off,
    /// unless configured.
    pub fn from_config(entries: &Vec<FeatureFlagEntry>) -> (m: Self)
        ensures
            m.wf(),
            m.metrics().is_empty(),
            forall|i: int| 0 <= i < entries@.len() && (forall|j: int| i < j < entries@.len() ==> entries@[j].key@ != entries@[i].key@)
                ==> m.flags().contains_key(#[trigger] entries@[i].key@) && m.flags()[entries@[i].key@].is_enabled == entries@[i].is_enabled
                    && m.flags()[entries@[i].key@].rollout_percentage == entries@[i].rollout_percentage
                    && m.flags()[entries@[i].key@].targeted_users@.len() == 0,
            m.flags().contains_key("new_dashboard"@),
            (forall|i: int| 0 <= i < entries@.len() ==> #[trigger] entries@[i].key@ != "new_dashboard"@)
                ==> !m.flags()["new_dashboard"@].is_enabled && m.flags()["new_dashboard"@].rollout_percentage == 0,
            forall|k: Seq<char>| #[trigger] m.flags().contains_key(k) ==> k == "new_dashboard"@ || exists|i: int| 0 <= i < entries@.len() && entries@[i].key@ == k,
    {
        let mut flags: Table<String, FeatureFlag> = Table::new();
        let mut i: usize = 0;
        while i < entries.len()
            invariant
                i <= entries@.len(),
                flags.wf(),
                forall|a: int| 0 <= a < i && (forall|j: int| a < j < i ==> entries@[j].key@ != entries@[a].key@)
                    ==> flags.view().contains_key(#[trigger] entries@[a].key@) && flags.view()[entries@[a].key@].is_enabled == entries@[a].is_enabled
                        && flags.view()[entries@[a].key@].rollout_percentage == entries@[a].rollout_percentage
                        && flags.view()[entries@[a].key@].targeted_users@.len() == 0,
                forall|k: Seq<char>| #[trigger] flags.view().contains_key(k) ==> exists|a: int| 0 <= a < i && entries@[a].key@ == k,
            decreases entries@.len() - i,
        {
            let e = &entries[i];
            let ghost before = flags.view();
            flags.insert(
                e.key.clone(),
                FeatureFlag {
                    key: e.key.clone(),
                    is_enabled: e.is_enabled,
                    rollout_percentage: e.rollout_percentage,
                    targeted_users: Vec::new(),
                },
            );
            proof {
                assert forall|k: Seq<char>| #[trigger] flags.view().contains_key(k) implies exists|a: int| 0 <= a < i + 1 && entries@[a].key@ == k by {
                    if k != entries@[i as int].key@ {
                        assert(before.contains_key(k));
                        let a = choose|a: int| 0 <= a < i && entries@[a].key@ == k;
                    }
                }
            }
            i = i + 1;
        }
        let default_key = String::from_str(DEFAULT_FLAG_KEY);
        proof {
            reveal_strlit("new_dashboard");
        }
        if flags.get(&default_key).is_none() {
            let ghost before = flags.view();
            flags.insert(
                default_key,
                FeatureFlag {
                    key: String::from_str(DEFAULT_FLAG_KEY),
                    is_enabled: false,
                    rollout_percentage: 0,
                    targeted_users: Vec::new(),
                },
            );
            proof {
                assert forall|a: int| 0 <= a < entries@.len() && (forall|j: int| a < j < entries@.len() ==> entries@[j].key@ != entries@[a].key@)
                    implies flags.view().contains_key(#[trigger] entries@[a].key@) && flags.view()[entries@[a].key@].is_enabled == entries@[a].is_enabled
                        && flags.view()[entries@[a].key@].rollout_percentage == entries@[a].rollout_percentage
                        && flags.view()[entries@[a].key@].targeted_users@.len() == 0 by {
                    assert(before.contains_key(entries@[a].key@));
                }
            }
        } else {
            proof {
                if forall|a: int| 0 <= a < entries@.len() ==> #[trigger] entries@[a].key@ != "new_dashboard"@ {
                    let a = choose|a: int| 0 <= a < entries@.len() && entries@[a].key@ == "new_dashboard"@;
                    assert(entries@[a].key@ != "new_dashboard"@);
                }
            }
        }
        let metrics: Table<String, FeatureFlagMetrics> = Table::new();
        FeatureFlagManager { flags, metrics }
    }

    /// Whether flag `key` is on for a user, counting the evaluation (and
    /// the hit).  An unknown flag is off.
    pub fn is_enabled(&mut self, key: &str, user_id: Option<u128>) -> (on: bool)
        requires
            old(self).wf(),
        ensures
            final(self).wf(),
            final(self).flags() == old(self).flags(),
            final(self).metrics() == old(self).metrics().insert(key@, counted(metrics_or_zero(old(self).metrics(), key@), on)),
            !old(self).flags().contains_key(key@) ==> !on,
            old(self).flags().contains_key(key@) ==> exists|bucket: u64| on == #[trigger] flag_on(old(self).flags()[key@], user_id, bucket),
    {
        let k = String::from_str(key);
        let current = match self.metrics.get(&k) {
            Some(m) => *m,
            None => FeatureFlagMetrics { evaluations: 0, hits: 0 },
        };
        let on = match self.flags.get(&k) {
            None => false,
            Some(flag) => {
                let bucket = match user_id {
                    Some(u) => user_bucket(u),
                    None => random_byte() as u64,
                };
                let r = rollout_decision(flag, user_id, bucket);
                assert(r == flag_on(self.flags.view()[key@], user_id, bucket));
                r
            },
        };
        let evaluations = if current.evaluations == u64::MAX { 0 } else { current.evaluations + 1 };
        let hits = if on {
            if current.hits == u64::MAX { 0 } else { current.hits + 1 }
        } else {
            current.hits
        };
        self.metrics.insert(k, FeatureFlagMetrics { evaluations, hits });
        on
    }

    /// Replaces (or adds) a flag.
    pub fn update_flag(&mut self, flag: FeatureFlag)
        requires
            old(self).wf(),
        ensures
            final(self).wf(),
            final(self).flags() == old(self).flags().insert(flag.key@, flag),
            final(self).metrics() == old(self).metrics(),
    {
        let k = flag.key.clone();
        self.flags.insert(k, flag);
    }

    /// Every flag with its counts, ascending by key.
    pub fn get_all_status(&self) -> (r: Vec<FlagStatus>)
        requires
            self.wf(),
        ensures
            strictly_ascending(status_keys(r@)),
            forall|k: Seq<char>| #[trigger] status_keys(r@).contains(k) == self.flags().contains_key(k),
            forall|i: int| 0 <= i < r@.len() ==> ({
                let s = #[trigger] r@[i];
                let f = self.flags()[s.key@];
                let m = metrics_or_zero(self.metrics(), s.key@);
                &&& s.is_enabled == f.is_enabled
                &&& s.rollout_percentage == f.rollout_percentage
                &&& s.evaluations == m.evaluations
                &&& s.hits == m.hits
            }),
    {
        let keys = self.flags.keys();
        let sorted = sorted_distinct(&keys);
        let mut out: Vec<FlagStatus> = Vec::new();
        let mut i: usize = 0;
        while i < sorted.len()
            invariant
                self.wf(),
                i <= sorted@.len(),
                strictly_ascending(views(sorted@)),
                forall|k: Seq<char>| #[trigger] views(sorted@).contains(k) == self.flags().contains_key(k),
                out@.len() == i,
                forall|j: int| 0 <= j < i ==> (#[trigger] out@[j]).key@ == views(sorted@)[j],
                forall|j: int| 0 <= j < i ==> ({
                    let s = #[trigger] out@[j];
                    let f = self.flags()[s.key@];
                    let m = metrics_or_zero(self.metrics(), s.key@);
                    &&& s.is_enabled == f.is_enabled
                    &&& s.rollout_percentage == f.rollout_percentage
                    &&& s.evaluations == m.evaluations
                    &&& s.hits == m.hits
                }),
            decreases sorted@.len() - i,
        {
            let key = &sorted[i];
            assert(views(sorted@)[i as int] == key@);
            assert(views(sorted@).contains(key@));
            let flag = match self.flags.get(key) {
                Some(f) => f,
                None => {
                    assert(false);
                    return out;
                },
            };
            let (evaluations, hits) = match self.metrics.get(key) {
                Some(m) => (m.evaluations, m.hits),
                None => (0, 0),
            };
            out.push(
                FlagStatus {
                    key: key.clone(),
                    is_enabled: flag.is_enabled,
                    rollout_percentage: flag.rollout_percentage,
                    evaluations,
                    hits,
                },
            );
            i = i + 1;
        }
        proof {
            assert(status_keys(out@) =~= views(sorted@));
        }
        out
    }
}

/// A counted flag never has more hits than evaluations while the counts
/// stay below `u64::MAX`.
pub proof fn law_hits_bounded_by_evaluations(m: FeatureFlagMetrics, on: bool)
    requires
        m.hits <= m.evaluations < u64::MAX,
    ensures
        counted(m, on).hits <= counted(m, on).evaluations,
        counted(m, on).evaluations == m.evaluations + 1,
{
}

/// The answer when a flag-gated endpoint's flag is off.
pub fn flag_disabled_error(flag_key: &str) -> (e: ApiError)
    ensures
        e.status == 404,
        e.message@ == "This endpoint requires the '"@ + flag_key@ + "' feature flag to be enabled"@,
{
    let mut m = String::from_str("This endpoint requires the '");
    m.append(flag_key);
    m.append("' feature flag to be enabled");
    ApiError::with_message(404, "NOT_FOUND", m)
}

} // verus!
