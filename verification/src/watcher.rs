//! Per-resource-type watching: the reflector cache mirroring last-known
//! cluster state, the stamping of the configured type descriptor onto
//! objects that arrive without one, and the engine's self-healing reaction
//! to stream items.

use crate::api_resource::{
    api_resource_for, spec_api_version, spec_group, spec_plural, spec_version, ApiResource,
    ConfigResource,
};
use crate::object::{DynamicObject, TypeMeta};
use crate::retry::pow2;
use vstd::prelude::*;

verus! {

/// The set of configured resource types; one engine is run per entry.
pub struct Watcher {
    pub resources: Vec<ConfigResource>,
}

impl Watcher {
    pub fn new(resources: Vec<ConfigResource>) -> (w: Watcher)
        ensures
            w.resources == resources,
    {
        Watcher { resources }
    }

    /// The full resource identity of every configured resource type, one
    /// engine's worth each, with every default filled in.
    pub fn identities(&self) -> (r: Vec<ApiResource>)
        ensures
            r@.len() == self.resources@.len(),
            forall|i: int|
                0 <= i < r@.len() ==> {
                    &&& (#[trigger] r@[i]).group@ == spec_group(self.resources@[i])
                    &&& r@[i].version@ == spec_version(self.resources@[i])
                    &&& r@[i].api_version@ == spec_api_version(self.resources@[i])
                    &&& r@[i].kind == self.resources@[i].kind
                    &&& r@[i].plural@ == spec_plural(self.resources@[i])
                },
    {
        let mut out: Vec<ApiResource> = Vec::new();
        let mut i: usize = 0;
        while i < self.resources.len()
            invariant
                i <= self.resources@.len(),
                out@.len() == i,
                forall|j: int|
                    0 <= j < i ==> {
                        &&& (#[trigger] out@[j]).group@ == spec_group(self.resources@[j])
                        &&& out@[j].version@ == spec_version(self.resources@[j])
                        &&& out@[j].api_version@ == spec_api_version(self.resources@[j])
                        &&& out@[j].kind == self.resources@[j].kind
                        &&& out@[j].plural@ == spec_plural(self.resources@[j])
                    },
            decreases self.resources@.len() - i,
        {
            out.push(api_resource_for(&self.resources[i]));
            i = i + 1;
        }
        out
    }
}

/// An object's cache identity: its namespace and name, absent parts read as
/// empty.
pub open spec fn spec_opt_or_empty(o: Option<String>) -> Seq<char> {
    match o {
        Some(s) => s@,
        None => Seq::empty(),
    }
}

pub open spec fn obj_key(o: DynamicObject) -> (Seq<char>, Seq<char>) {
    (spec_opt_or_empty(o.metadata.namespace), spec_opt_or_empty(o.metadata.name))
}

/// No two cache entries share an identity.
pub open spec fn cache_entries_wf(es: Seq<DynamicObject>) -> bool {
    forall|i: int, j: int| 0 <= i < j < es.len() ==> obj_key(es[i]) != obj_key(es[j])
}

/// The in-memory mirror of one resource type's last-known cluster state.
/// It has exactly one writer (its engine); `ready` flips once the first
/// full listing has completed.
pub struct ReflectorCache {
    pub entries: Vec<DynamicObject>,
    pub ready: bool,
}

/// Whether two optional strings are the same identity part.
fn key_part_eq(a: &Option<String>, b: &Option<String>) -> (r: bool)
    ensures
        r == (spec_opt_or_empty(*a) == spec_opt_or_empty(*b)),
{
    match (a, b) {
        (Some(x), Some(y)) => *x == *y,
        (Some(x), None) => {
            let e = x.as_str().is_empty();
            proof {
                if e {
                    assert(x@ =~= Seq::<char>::empty());
                }
            }
            e
        },
        (None, Some(y)) => {
            let e = y.as_str().is_empty();
            proof {
                if e {
                    assert(y@ =~= Seq::<char>::empty());
                }
            }
            e
        },
        (None, None) => true,
    }
}

/// Whether two objects share a cache identity.
fn same_key(a: &DynamicObject, b: &DynamicObject) -> (r: bool)
    ensures
        r == (obj_key(*a) == obj_key(*b)),
{
    let ns = key_part_eq(&a.metadata.namespace, &b.metadata.namespace);
    let nm = key_part_eq(&a.metadata.name, &b.metadata.name);
    ns && nm
}

impl ReflectorCache {
    /// An empty, not yet ready cache.
    pub fn new() -> (c: ReflectorCache)
        ensures
            c.entries@ == Seq::<DynamicObject>::empty(),
            !c.ready,
            cache_entries_wf(c.entries@),
    {
        ReflectorCache { entries: Vec::new(), ready: false }
    }

    /// Record an applied object: replace the entry with its identity, or add
    /// one. Identities stay unique.
    #[verifier::loop_isolation(false)]
    pub fn apply(&mut self, o: DynamicObject)
        requires
            cache_entries_wf(old(self).entries@),
        ensures
            final(self).ready == old(self).ready,
            cache_entries_wf(final(self).entries@),
            if exists|j: int|
                0 <= j < old(self).entries@.len() && obj_key(old(self).entries@[j]) == obj_key(o) {
                exists|j: int|
                    0 <= j < old(self).entries@.len() && obj_key(old(self).entries@[j]) == obj_key(
                        o,
                    ) && final(self).entries@ == old(self).entries@.update(j, o)
            } else {
                final(self).entries@ == old(self).entries@.push(o)
            },
    {
        let n = self.entries.len();
        let mut i: usize = 0;
        while i < n
            invariant
                *self == *old(self),
                i <= n,
                n == self.entries@.len(),
                forall|j: int| 0 <= j < i ==> obj_key(self.entries@[j]) != obj_key(o),
            decreases n - i,
        {
            if same_key(&self.entries[i], &o) {
                let ghost es0 = self.entries@;
                let ghost idx = i as int;
                self.entries[i] = o;
                proof {
                    let es1 = self.entries@;
                    assert(es1 == es0.update(idx, o));
                    assert(obj_key(o) == obj_key(es0[idx]));
                    assert(forall|x: int|
                        0 <= x < es1.len() ==> obj_key(es1[x]) == obj_key(es0[x]));
                }
                return ;
            }
            i = i + 1;
        }
        self.entries.push(o);
        proof {
            let es0 = old(self).entries@;
            let es1 = self.entries@;
            assert forall|p: int, q: int| 0 <= p < q < es1.len() implies obj_key(es1[p])
                != obj_key(es1[q]) by {
                if q == es1.len() - 1 {
                    assert(obj_key(es0[p]) != obj_key(o));
                }
            }
        }
    }

    /// Forget the entry with the removed object's identity, if it is there.
    #[verifier::loop_isolation(false)]
    pub fn remove(&mut self, o: &DynamicObject)
        requires
            cache_entries_wf(old(self).entries@),
        ensures
            final(self).ready == old(self).ready,
            cache_entries_wf(final(self).entries@),
            if exists|j: int|
                0 <= j < old(self).entries@.len() && obj_key(old(self).entries@[j]) == obj_key(*o) {
                exists|j: int|
                    0 <= j < old(self).entries@.len() && obj_key(old(self).entries@[j]) == obj_key(
                        *o,
                    ) && final(self).entries@ == old(self).entries@.remove(j)
            } else {
                final(self).entries@ == old(self).entries@
            },
    {
        let n = self.entries.len();
        let mut i: usize = 0;
        while i < n
            invariant
                *self == *old(self),
                i <= n,
                n == self.entries@.len(),
                forall|j: int| 0 <= j < i ==> obj_key(self.entries@[j]) != obj_key(*o),
            decreases n - i,
        {
            if same_key(&self.entries[i], o) {
                let ghost es0 = self.entries@;
                let ghost idx = i as int;
                self.entries.remove(i);
                proof {
                    let es1 = self.entries@;
                    assert(es1 == es0.remove(idx));
                    assert forall|p: int, q: int| 0 <= p < q < es1.len() implies obj_key(es1[p])
                        != obj_key(es1[q]) by {
                        let p0 = if p < idx { p } else { p + 1 };
                        let q0 = if q < idx { q } else { q + 1 };
                        assert(es1[p] == es0[p0]);
                        assert(es1[q] == es0[q0]);
                        assert(obj_key(es0[p0]) != obj_key(es0[q0]));
                    }
                }
                return ;
            }
            i = i + 1;
        }
    }

    /// The names of everything currently mirrored, for reporting.
    pub fn names(&self) -> (r: Vec<String>)
        ensures
            r@.len() == self.entries@.len(),
            forall|i: int|
                0 <= i < r@.len() ==> r@[i]@ == spec_opt_or_empty(self.entries@[i].metadata.name),
    {
        let mut out: Vec<String> = Vec::new();
        let mut i: usize = 0;
        while i < self.entries.len()
            invariant
                i <= self.entries@.len(),
                out@.len() == i,
                forall|j: int|
                    0 <= j < i ==> out@[j]@ == spec_opt_or_empty(self.entries@[j].metadata.name),
            decreases self.entries@.len() - i,
        {
            let name = match &self.entries[i].metadata.name {
                Some(s) => s.clone(),
                None => String::new(),
            };
            out.push(name);
            i = i + 1;
        }
        out
    }
}

/// The reporting unit around one cache: it periodically reads the mirrored
/// names; the timed loop around it lives with the process bootstrap.
pub struct WatchSubsystem {
    pub reader: ReflectorCache,
}

impl WatchSubsystem {
    /// One reporting tick: the names to log, and whether to keep going.
    pub fn tick(&self, shutdown_requested: bool) -> (r: (Vec<String>, bool))
        ensures
            r.0@.len() == self.reader.entries@.len(),
            r.1 == !shutdown_requested,
    {
        (self.reader.names(), !shutdown_requested)
    }
}

/// An object with the configured descriptor stamped on when it has none.
pub open spec fn spec_stamp(o: DynamicObject, api: ApiResource) -> DynamicObject {
    match o.types {
        Some(_) => o,
        None => DynamicObject {
            types: Some(TypeMeta { api_version: api.api_version, kind: api.kind }),
            metadata: o.metadata,
            data: o.data,
        },
    }
}

/// Stamp the configured apiVersion and kind onto an object that arrived
/// without an explicit type descriptor; downstream stages rely on the
/// descriptor being present.
pub fn stamp_types(o: DynamicObject, api: &ApiResource) -> (r: DynamicObject)
    ensures
        r == spec_stamp(o, *api),
        r.types is Some,
{
    match o.types {
        Some(t) => DynamicObject { types: Some(t), metadata: o.metadata, data: o.data },
        None => DynamicObject {
            types: Some(
                TypeMeta { api_version: api.api_version.clone(), kind: api.kind.clone() },
            ),
            metadata: o.metadata,
            data: o.data,
        },
    }
}

/// An event emitted for an object whose source lacked a type descriptor
/// carries exactly the configured apiVersion and kind.
pub proof fn lemma_stamp_fills_descriptor(o: DynamicObject, api: ApiResource)
    requires
        o.types is None,
    ensures
        spec_stamp(o, api).types == Some(TypeMeta { api_version: api.api_version, kind: api.kind }),
        spec_stamp(o, api).metadata == o.metadata,
        spec_stamp(o, api).data == o.data,
{
}

/// An object that already carries a descriptor passes through unchanged.
pub proof fn lemma_stamp_keeps_descriptor(o: DynamicObject, api: ApiResource)
    requires
        o.types is Some,
    ensures
        spec_stamp(o, api) == o,
{
}

/// One item of a watch stream, as the engine sees it.
pub enum WatchItem {
    /// An object was created or updated.
    Applied(DynamicObject),
    /// An object was removed.
    Removed(DynamicObject),
    /// The first full listing completed.
    InitialSyncDone,
    /// A recoverable stream error: disconnect, stale resource version.
    TransientError,
    /// A persistent error: resource type not found, forbidden.
    PersistentError,
}

/// What the engine asks its runner to do after one item.
#[derive(Debug, PartialEq)]
pub enum EngineAction {
    /// Emit this event downstream.
    Forward(DynamicObject),
    /// Nothing to emit.
    Silent,
    /// Restart the watch after this exponential-backoff delay.
    Backoff(u64),
    /// Stalled on a persistent error: retry after this fixed delay and log.
    Stall(u64),
}

/// Delay base for the engine's exponential backoff.
pub const WATCH_BACKOFF_BASE: u64 = 1;

/// Consecutive-failure count beyond which the backoff stops growing.
pub const WATCH_BACKOFF_CAP: u32 = 16;

/// Fixed retry interval while stalled on a persistent error.
pub const WATCH_STALL_DELAY: u64 = 30;

/// One engine: the resource identity it watches, its cache, and how many
/// transient failures it has seen in a row.
pub struct WatchEngine {
    pub resource: ApiResource,
    pub cache: ReflectorCache,
    pub failures: u32,
}

/// The capped exponent the backoff uses.
pub open spec fn spec_backoff_exp(failures: u32) -> nat {
    if failures <= WATCH_BACKOFF_CAP {
        failures as nat
    } else {
        WATCH_BACKOFF_CAP as nat
    }
}

impl WatchEngine {
    /// A fresh engine for one resource identity.
    pub fn new(resource: ApiResource) -> (e: WatchEngine)
        ensures
            e.resource == resource,
            e.cache.entries@ == Seq::<DynamicObject>::empty(),
            !e.cache.ready,
            e.failures == 0,
            cache_entries_wf(e.cache.entries@),
    {
        WatchEngine { resource, cache: ReflectorCache::new(), failures: 0 }
    }

    /// React to one stream item. Applied objects update the cache and are
    /// forwarded with the descriptor stamped on; removals update the cache
    /// but are not forwarded; transient errors back off exponentially and
    /// never propagate; persistent errors leave the engine stalled but
    /// alive, retrying at a fixed interval.
    pub fn handle(&mut self, item: WatchItem) -> (a: EngineAction)
        requires
            cache_entries_wf(old(self).cache.entries@),
        ensures
            final(self).resource == old(self).resource,
            cache_entries_wf(final(self).cache.entries@),
            match item {
                WatchItem::Applied(o) => {
                    &&& a == EngineAction::Forward(spec_stamp(o, old(self).resource))
                    &&& final(self).failures == 0
                    &&& final(self).cache.ready == old(self).cache.ready
                },
                WatchItem::Removed(o) => {
                    &&& a is Silent
                    &&& final(self).failures == 0
                    &&& final(self).cache.ready == old(self).cache.ready
                },
                WatchItem::InitialSyncDone => {
                    &&& a is Silent
                    &&& final(self).cache.ready
                    &&& final(self).cache.entries@ == old(self).cache.entries@
                },
                WatchItem::TransientError => {
                    &&& final(self).failures == if old(self).failures < u32::MAX {
                        old(self).failures + 1
                    } else {
                        old(self).failures as int
                    }
                    &&& a == EngineAction::Backoff(
                        (WATCH_BACKOFF_BASE * pow2(spec_backoff_exp(final(self).failures))) as u64,
                    )
                    &&& final(self).cache == old(self).cache
                },
                WatchItem::PersistentError => {
                    &&& a == EngineAction::Stall(WATCH_STALL_DELAY)
                    &&& *final(self) == *old(self)
                },
            },
    {
        match item {
            WatchItem::Applied(o) => {
                let stamped = stamp_types(o, &self.resource);
                let copy = stamped.deep_clone();
                self.cache.apply(copy);
                self.failures = 0;
                EngineAction::Forward(stamped)
            },
            WatchItem::Removed(o) => {
                self.cache.remove(&o);
                self.failures = 0;
                EngineAction::Silent
            },
            WatchItem::InitialSyncDone => {
                self.cache.ready = true;
                EngineAction::Silent
            },
            WatchItem::TransientError => {
                if self.failures < u32::MAX {
                    self.failures = self.failures + 1;
                }
                let exp = if self.failures <= WATCH_BACKOFF_CAP {
                    self.failures
                } else {
                    WATCH_BACKOFF_CAP
                };
                let mut d: u64 = WATCH_BACKOFF_BASE;
                let mut k: u32 = 0;
                proof {
                    crate::retry::lemma_pow2_monotonic(0, WATCH_BACKOFF_CAP as nat);
                }
                while k < exp
                    invariant
                        k <= exp,
                        exp <= WATCH_BACKOFF_CAP,
                        d == WATCH_BACKOFF_BASE * pow2(k as nat),
                        d <= WATCH_BACKOFF_BASE * pow2(WATCH_BACKOFF_CAP as nat),
                    decreases exp - k,
                {
                    proof {
                        crate::retry::lemma_pow2_monotonic(k as nat + 1, WATCH_BACKOFF_CAP as nat);
                        reveal_with_fuel(pow2, 18);
                        assert(pow2(WATCH_BACKOFF_CAP as nat) == 65536);
                    }
                    d = d * 2;
                    k = k + 1;
                }
                EngineAction::Backoff(d)
            },
            WatchItem::PersistentError => EngineAction::Stall(WATCH_STALL_DELAY),
        }
    }
}

} // verus!
