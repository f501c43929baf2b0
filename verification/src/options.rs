//! Execution settings: per-phase options, request-level defaults, and the
//! rules for merging them.
//!
//! An environment is kept as an association list of byte-string pairs; its
//! abstract content is the `Map` built by [`env_map`].  Merging is
//! phase-preferring: the request-level environment and limits only fill what
//! the phase leaves open.

use vstd::prelude::*;
use crate::bytes::{bytes_eq, sub_bytes};

verus! {

/// An environment: ordered key/value pairs of byte strings.
pub type EnvList = Vec<(Vec<u8>, Vec<u8>)>;

/// The entries of an environment list, as sequences.
pub open spec fn env_entries(e: Seq<(Vec<u8>, Vec<u8>)>) -> Seq<(Seq<u8>, Seq<u8>)> {
    e.map(|_i: int, p: (Vec<u8>, Vec<u8>)| (p.0@, p.1@))
}

/// The mapping an environment list denotes; a later entry overrides an
/// earlier one with the same key.
pub open spec fn env_map(e: Seq<(Seq<u8>, Seq<u8>)>) -> Map<Seq<u8>, Seq<u8>>
    decreases e.len(),
{
    if e.len() == 0 {
        Map::empty()
    } else {
        env_map(e.drop_last()).insert(e.last().0, e.last().1)
    }
}

/// Whether some entry of `e` has key `k`.
pub open spec fn env_has_key(e: Seq<(Seq<u8>, Seq<u8>)>, k: Seq<u8>) -> bool {
    exists|i: int| 0 <= i < e.len() && e[i].0 == k
}

/// The entries of `request` whose keys `phase` does not bind.
pub open spec fn env_keep_missing(
    request: Seq<(Seq<u8>, Seq<u8>)>,
    phase: Seq<(Seq<u8>, Seq<u8>)>,
) -> Seq<(Seq<u8>, Seq<u8>)>
    decreases request.len(),
{
    if request.len() == 0 {
        Seq::empty()
    } else {
        let rest = env_keep_missing(request.drop_last(), phase);
        if env_has_key(phase, request.last().0) {
            rest
        } else {
            rest.push(request.last())
        }
    }
}

/// The merged environment: the phase's entries, then every request entry
/// whose key the phase does not bind.
pub open spec fn merged_env(
    phase: Seq<(Seq<u8>, Seq<u8>)>,
    request: Seq<(Seq<u8>, Seq<u8>)>,
) -> Seq<(Seq<u8>, Seq<u8>)> {
    phase + env_keep_missing(request, phase)
}

pub proof fn lemma_env_map_dom(e: Seq<(Seq<u8>, Seq<u8>)>)
    ensures
        forall|k: Seq<u8>| #[trigger] env_map(e).contains_key(k) <==> env_has_key(e, k),
    decreases e.len(),
{
    if e.len() > 0 {
        lemma_env_map_dom(e.drop_last());
        assert forall|k: Seq<u8>| env_has_key(e, k) implies #[trigger] env_map(e).contains_key(
            k,
        ) by {
            let i = choose|i: int| 0 <= i < e.len() && e[i].0 == k;
            if i < e.len() - 1 {
                assert(e.drop_last()[i].0 == k);
                assert(env_has_key(e.drop_last(), k));
                assert(env_map(e.drop_last()).contains_key(k));
            } else {
                assert(e.last().0 == k);
            }
        }
        assert forall|k: Seq<u8>| #[trigger] env_map(e).contains_key(k) implies env_has_key(
            e,
            k,
        ) by {
            if k != e.last().0 {
                assert(env_map(e.drop_last()).contains_key(k));
                assert(env_has_key(e.drop_last(), k));
                let i = choose|i: int| 0 <= i < e.len() - 1 && e.drop_last()[i].0 == k;
                assert(e[i].0 == k);
            } else {
                assert(e[e.len() - 1].0 == k);
            }
        }
    }
}

pub proof fn lemma_env_map_concat(a: Seq<(Seq<u8>, Seq<u8>)>, b: Seq<(Seq<u8>, Seq<u8>)>)
    ensures
        env_map(a + b) == env_map(a).union_prefer_right(env_map(b)),
    decreases b.len(),
{
    if b.len() == 0 {
        assert(a + b =~= a);
        assert(env_map(a).union_prefer_right(env_map(b)) =~= env_map(a));
    } else {
        lemma_env_map_concat(a, b.drop_last());
        assert((a + b).drop_last() =~= a + b.drop_last());
        assert((a + b).last() == b.last());
        assert(env_map(a + b) =~= env_map(a).union_prefer_right(env_map(b)));
    }
}

pub proof fn lemma_env_keep_missing(
    request: Seq<(Seq<u8>, Seq<u8>)>,
    phase: Seq<(Seq<u8>, Seq<u8>)>,
)
    ensures
        forall|k: Seq<u8>| #[trigger]
            env_has_key(env_keep_missing(request, phase), k) <==> env_has_key(request, k)
                && !env_has_key(phase, k),
        forall|k: Seq<u8>|
            !env_has_key(phase, k) && #[trigger] env_map(request).contains_key(k)
                ==> env_map(env_keep_missing(request, phase)).contains_key(k) && env_map(
                env_keep_missing(request, phase),
            )[k] == env_map(request)[k],
    decreases request.len(),
{
    if request.len() > 0 {
        lemma_env_keep_missing(request.drop_last(), phase);
        let kept = env_keep_missing(request, phase);
        let kept_rest = env_keep_missing(request.drop_last(), phase);
        assert forall|k: Seq<u8>| #[trigger] env_has_key(kept, k) implies env_has_key(request, k)
            && !env_has_key(phase, k) by {
            let i = choose|i: int| 0 <= i < kept.len() && kept[i].0 == k;
            if env_has_key(phase, request.last().0) || i < kept.len() - 1 {
                assert(kept_rest[i].0 == k);
                assert(env_has_key(kept_rest, k));
                let j = choose|j: int|
                    0 <= j < request.drop_last().len() && request.drop_last()[j].0 == k;
                assert(request[j].0 == k);
            } else {
                assert(request[request.len() - 1].0 == k);
            }
        }
        assert forall|k: Seq<u8>|
            env_has_key(request, k) && !env_has_key(phase, k) implies #[trigger] env_has_key(
            kept,
            k,
        ) by {
            let i = choose|i: int| 0 <= i < request.len() && request[i].0 == k;
            if i < request.len() - 1 {
                assert(request.drop_last()[i].0 == k);
                assert(env_has_key(request.drop_last(), k));
                assert(env_has_key(kept_rest, k));
                let j = choose|j: int| 0 <= j < kept_rest.len() && kept_rest[j].0 == k;
                assert(kept[j].0 == k);
            } else {
                assert(!env_has_key(phase, request.last().0));
                assert(kept.last().0 == k);
            }
        }
        let last_key = request.last().0;
        let last_value = request.last().1;
        assert forall|k: Seq<u8>|
            !env_has_key(phase, k) && #[trigger] env_map(request).contains_key(k) implies env_map(
            kept,
        ).contains_key(k) && env_map(kept)[k] == env_map(request)[k] by {
            lemma_env_map_dom(request);
            lemma_env_map_dom(request.drop_last());
            lemma_env_map_dom(kept);
            lemma_env_map_dom(kept_rest);
            if env_has_key(phase, last_key) {
                // The final request entry is shadowed by the phase, so it was
                // dropped; `k` differs from its key.
                assert(kept == kept_rest);
                assert(k != last_key);
                assert(env_map(request)[k] == env_map(request.drop_last())[k]);
                assert(env_map(request.drop_last()).contains_key(k));
            } else {
                assert(kept == kept_rest.push(request.last()));
                assert(kept.drop_last() =~= kept_rest);
                assert(env_map(kept) == env_map(kept_rest).insert(last_key, last_value));
                if k == last_key {
                    assert(env_map(request)[k] == last_value);
                    assert(env_map(kept)[k] == last_value);
                } else {
                    assert(env_map(request)[k] == env_map(request.drop_last())[k]);
                    assert(env_map(request.drop_last()).contains_key(k));
                    assert(env_map(kept_rest).contains_key(k));
                    assert(env_map(kept)[k] == env_map(kept_rest)[k]);
                }
            }
        }
    }
}

/// Merging is phase-preferring: the merged environment denotes the
/// request-level mapping extended (and overridden) by the phase mapping.
pub proof fn lemma_env_merge(phase: Seq<(Seq<u8>, Seq<u8>)>, request: Seq<(Seq<u8>, Seq<u8>)>)
    ensures
        env_map(merged_env(phase, request)) == env_map(request).union_prefer_right(env_map(phase)),
{
    let kept = env_keep_missing(request, phase);
    lemma_env_map_concat(phase, kept);
    lemma_env_keep_missing(request, phase);
    lemma_env_map_dom(phase);
    lemma_env_map_dom(request);
    lemma_env_map_dom(kept);
    assert(env_map(merged_env(phase, request)) =~= env_map(request).union_prefer_right(
        env_map(phase),
    ));
}

/// Copies a byte string.
pub fn copy_bytes(v: &Vec<u8>) -> (r: Vec<u8>)
    ensures
        r@ == v@,
{
    let r = sub_bytes(v.as_slice(), 0, v.len());
    proof {
        assert(v@.subrange(0, v@.len() as int) =~= v@);
    }
    r
}

/// Copies an environment list.
pub fn copy_env(e: &EnvList) -> (r: EnvList)
    ensures
        env_entries(r@) == env_entries(e@),
        r@.len() == e@.len(),
{
    let n: usize = e.len();
    let mut r: EnvList = Vec::new();
    let mut i: usize = 0;
    while i < n
        invariant
            i <= n,
            n == e@.len(),
            r@.len() == i,
            env_entries(r@) == env_entries(e@.subrange(0, i as int)),
        decreases n - i,
    {
        let key = copy_bytes(&e[i].0);
        let value = copy_bytes(&e[i].1);
        r.push((key, value));
        proof {
            assert(env_entries(e@.subrange(0, i + 1)) =~= env_entries(
                e@.subrange(0, i as int),
            ).push((e@[i as int].0@, e@[i as int].1@)));
            assert(env_entries(r@) =~= env_entries(e@.subrange(0, i + 1)));
        }
        i = i + 1;
    }
    proof {
        assert(e@.subrange(0, n as int) =~= e@);
    }
    r
}

/// Whether `e` binds the key `k`.
pub fn env_contains_key(e: &EnvList, k: &[u8]) -> (r: bool)
    ensures
        r == env_has_key(env_entries(e@), k@),
{
    let n: usize = e.len();
    let mut i: usize = 0;
    while i < n
        invariant
            i <= n,
            n == e@.len(),
            forall|j: int| 0 <= j < i ==> env_entries(e@)[j].0 != k@,
        decreases n - i,
    {
        if bytes_eq(e[i].0.as_slice(), k) {
            proof {
                assert(env_entries(e@)[i as int].0 == k@);
            }
            return true;
        }
        i = i + 1;
    }
    proof {
        assert(!env_has_key(env_entries(e@), k@));
    }
    false
}

/// Merges a request-level environment into a phase's environment; entries of
/// the phase win on a key collision.
pub fn merge_environment(phase: &EnvList, request: &EnvList) -> (r: EnvList)
    ensures
        env_entries(r@) == merged_env(env_entries(phase@), env_entries(request@)),
{
    let mut r = copy_env(phase);
    let n: usize = request.len();
    let mut i: usize = 0;
    while i < n
        invariant
            i <= n,
            n == request@.len(),
            env_entries(r@) == env_entries(phase@) + env_keep_missing(
                env_entries(request@.subrange(0, i as int)),
                env_entries(phase@),
            ),
        decreases n - i,
    {
        let ghost phase_e = env_entries(phase@);
        let ghost prefix = env_entries(request@.subrange(0, i as int));
        let ghost prefix_next = env_entries(request@.subrange(0, i + 1));
        proof {
            assert(prefix_next =~= prefix.push((request@[i as int].0@, request@[i as int].1@)));
            assert(prefix_next.drop_last() =~= prefix);
            assert(prefix_next.last().0 == request@[i as int].0@);
        }
        if !env_contains_key(phase, request[i].0.as_slice()) {
            let key = copy_bytes(&request[i].0);
            let value = copy_bytes(&request[i].1);
            let ghost r0 = r@;
            r.push((key, value));
            proof {
                assert(env_keep_missing(prefix_next, phase_e) == env_keep_missing(
                    prefix,
                    phase_e,
                ).push(prefix_next.last()));
                assert(r@ == r0.push((key, value)));
                assert(env_entries(r@) =~= env_entries(r0).push(prefix_next.last()));
                assert(env_entries(r@) =~= phase_e + env_keep_missing(prefix_next, phase_e));
            }
        } else {
            proof {
                assert(env_keep_missing(prefix_next, phase_e) == env_keep_missing(
                    prefix,
                    phase_e,
                ));
                assert(env_entries(r@) =~= phase_e + env_keep_missing(prefix_next, phase_e));
            }
        }
        i = i + 1;
    }
    proof {
        assert(request@.subrange(0, n as int) =~= request@);
    }
    r
}

/// Resource limits for one sandboxed execution, with every knob resolved.
#[derive(Debug, Clone)]
pub struct IsolatedBoxOptions {
    pub environment: Option<EnvList>,
    pub profiling: bool,
    pub run_time_limit: u64,
    pub extra_time_limit: u64,
    pub wall_time_limit: u64,
    pub stack_size_limit: u64,
    pub process_count_limit: u64,
    pub memory_limit: u64,
    pub storage_limit: u64,
}

impl IsolatedBoxOptions {
    /// The options used when a request leaves everything open.
    pub open spec fn spec_default() -> IsolatedBoxOptions {
        IsolatedBoxOptions {
            environment: None,
            profiling: false,
            run_time_limit: 5,
            extra_time_limit: 0,
            wall_time_limit: 10,
            stack_size_limit: 128000,
            process_count_limit: 120,
            memory_limit: 512000,
            storage_limit: 10240,
        }
    }
}

impl Default for IsolatedBoxOptions {
    fn default() -> (r: IsolatedBoxOptions)
        ensures
            r == IsolatedBoxOptions::spec_default(),
    {
        IsolatedBoxOptions {
            environment: None,
            profiling: false,
            run_time_limit: 5,
            extra_time_limit: 0,
            wall_time_limit: 10,
            stack_size_limit: 128000,
            process_count_limit: 120,
            memory_limit: 512000,
            storage_limit: 10240,
        }
    }
}

/// Partial resource limits: a field left as `None` inherits from the
/// request-level settings and ultimately from the defaults.
#[derive(Debug, Clone)]
pub struct PhaseRunSettings {
    pub run_time_limit: Option<u64>,
    pub extra_time_limit: Option<u64>,
    pub wall_time_limit: Option<u64>,
    pub stack_size_limit: Option<u64>,
    pub process_count_limit: Option<u64>,
    pub memory_limit: Option<u64>,
    pub storage_limit: Option<u64>,
}

impl PhaseRunSettings {
    /// Field-wise merge: a field set in `a` wins over the same field of `b`.
    pub open spec fn spec_merged(a: PhaseRunSettings, b: PhaseRunSettings) -> PhaseRunSettings {
        PhaseRunSettings {
            run_time_limit: if a.run_time_limit is Some {
                a.run_time_limit
            } else {
                b.run_time_limit
            },
            extra_time_limit: if a.extra_time_limit is Some {
                a.extra_time_limit
            } else {
                b.extra_time_limit
            },
            wall_time_limit: if a.wall_time_limit is Some {
                a.wall_time_limit
            } else {
                b.wall_time_limit
            },
            stack_size_limit: if a.stack_size_limit is Some {
                a.stack_size_limit
            } else {
                b.stack_size_limit
            },
            process_count_limit: if a.process_count_limit is Some {
                a.process_count_limit
            } else {
                b.process_count_limit
            },
            memory_limit: if a.memory_limit is Some {
                a.memory_limit
            } else {
                b.memory_limit
            },
            storage_limit: if a.storage_limit is Some {
                a.storage_limit
            } else {
                b.storage_limit
            },
        }
    }

    /// Fills every unset field of `self` from `other`; fields already set win.
    pub fn merge(&mut self, other: &PhaseRunSettings)
        ensures
            *final(self) == PhaseRunSettings::spec_merged(*old(self), *other),
    {
        if self.run_time_limit.is_none() {
            self.run_time_limit = other.run_time_limit;
        }
        if self.extra_time_limit.is_none() {
            self.extra_time_limit = other.extra_time_limit;
        }
        if self.wall_time_limit.is_none() {
            self.wall_time_limit = other.wall_time_limit;
        }
        if self.stack_size_limit.is_none() {
            self.stack_size_limit = other.stack_size_limit;
        }
        if self.process_count_limit.is_none() {
            self.process_count_limit = other.process_count_limit;
        }
        if self.memory_limit.is_none() {
            self.memory_limit = other.memory_limit;
        }
        if self.storage_limit.is_none() {
            self.storage_limit = other.storage_limit;
        }
    }

    /// A copy of `self`.
    pub fn duplicate(&self) -> (r: PhaseRunSettings)
        ensures
            r == *self,
    {
        PhaseRunSettings {
            run_time_limit: self.run_time_limit,
            extra_time_limit: self.extra_time_limit,
            wall_time_limit: self.wall_time_limit,
            stack_size_limit: self.stack_size_limit,
            process_count_limit: self.process_count_limit,
            memory_limit: self.memory_limit,
            storage_limit: self.storage_limit,
        }
    }
}

impl Default for PhaseRunSettings {
    fn default() -> (r: PhaseRunSettings)
        ensures
            r.run_time_limit is None,
            r.extra_time_limit is None,
            r.wall_time_limit is None,
            r.stack_size_limit is None,
            r.process_count_limit is None,
            r.memory_limit is None,
            r.storage_limit is None,
    {
        PhaseRunSettings {
            run_time_limit: None,
            extra_time_limit: None,
            wall_time_limit: None,
            stack_size_limit: None,
            process_count_limit: None,
            memory_limit: None,
            storage_limit: None,
        }
    }
}

/// One unit of work in a request: a script with its optional name,
/// environment, partial limits, and profiling flag.
#[derive(Debug, Clone)]
pub struct PhaseSettings {
    pub name: Option<Vec<u8>>,
    pub script: Vec<u8>,
    pub environment: Option<EnvList>,
    pub sandbox_settings: Option<PhaseRunSettings>,
    pub profiling: Option<bool>,
}

/// The fully resolved options a phase's settings denote: limits fall back to
/// the defaults field by field, profiling defaults to off.
pub open spec fn options_of(settings: PhaseSettings) -> IsolatedBoxOptions {
    let s = match settings.sandbox_settings {
        Some(s) => s,
        None => PhaseRunSettings {
            run_time_limit: None,
            extra_time_limit: None,
            wall_time_limit: None,
            stack_size_limit: None,
            process_count_limit: None,
            memory_limit: None,
            storage_limit: None,
        },
    };
    let d = IsolatedBoxOptions::spec_default();
    IsolatedBoxOptions {
        environment: settings.environment,
        profiling: match settings.profiling {
            Some(p) => p,
            None => d.profiling,
        },
        run_time_limit: match s.run_time_limit {
            Some(v) => v,
            None => d.run_time_limit,
        },
        extra_time_limit: match s.extra_time_limit {
            Some(v) => v,
            None => d.extra_time_limit,
        },
        wall_time_limit: match s.wall_time_limit {
            Some(v) => v,
            None => d.wall_time_limit,
        },
        stack_size_limit: match s.stack_size_limit {
            Some(v) => v,
            None => d.stack_size_limit,
        },
        process_count_limit: match s.process_count_limit {
            Some(v) => v,
            None => d.process_count_limit,
        },
        memory_limit: match s.memory_limit {
            Some(v) => v,
            None => d.memory_limit,
        },
        storage_limit: match s.storage_limit {
            Some(v) => v,
            None => d.storage_limit,
        },
    }
}

impl From<PhaseSettings> for IsolatedBoxOptions {
    fn from(settings: PhaseSettings) -> (r: IsolatedBoxOptions) {
        let defaults = IsolatedBoxOptions::default();
        let s = match settings.sandbox_settings {
            Some(s) => s,
            None => PhaseRunSettings::default(),
        };
        IsolatedBoxOptions {
            environment: settings.environment,
            profiling: match settings.profiling {
                Some(p) => p,
                None => defaults.profiling,
            },
            run_time_limit: match s.run_time_limit {
                Some(v) => v,
                None => defaults.run_time_limit,
            },
            extra_time_limit: match s.extra_time_limit {
                Some(v) => v,
                None => defaults.extra_time_limit,
            },
            wall_time_limit: match s.wall_time_limit {
                Some(v) => v,
                None => defaults.wall_time_limit,
            },
            stack_size_limit: match s.stack_size_limit {
                Some(v) => v,
                None => defaults.stack_size_limit,
            },
            process_count_limit: match s.process_count_limit {
                Some(v) => v,
                None => defaults.process_count_limit,
            },
            memory_limit: match s.memory_limit {
                Some(v) => v,
                None => defaults.memory_limit,
            },
            storage_limit: match s.storage_limit {
                Some(v) => v,
                None => defaults.storage_limit,
            },
        }
    }
}

impl vstd::std_specs::convert::FromSpecImpl<PhaseSettings> for IsolatedBoxOptions {
    open spec fn obeys_from_spec() -> bool {
        true
    }

    open spec fn from_spec(settings: PhaseSettings) -> IsolatedBoxOptions {
        options_of(settings)
    }
}

} // verus!
