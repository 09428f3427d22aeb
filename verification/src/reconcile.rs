//! Worker lifecycle from the cluster's resource watch.
//!
//! The watch stream yields initialization markers, applies, and deletes of
//! worker resources.  An apply whose normalized network matches this pod's
//! network (re)registers the worker; any other apply is ignored; a delete
//! removes the worker unconditionally; a broken stream is fatal, and the
//! process restart re-synchronizes the watch.
//!
//! Registration fetches the worker's code from its source — an object-store
//! URI or a web URL — and hands it to the runtime.  Any failure on that
//! path is recorded in the failed-worker registry under the worker's name;
//! a later success, or a delete, clears the record.  The dispatcher reads
//! the registry to surface the failure to callers.

use vstd::prelude::*;
use vstd::string::StrSliceExecFns;
use vstd::string::StringExecFns;
use crate::network::{normalize_spec, handle_legacy_networks};
use crate::strmap::StrMap;
use crate::strutil::{str_eq, str_starts_with, has_prefix};

verus! {

/// A worker resource as the reconciler reads it: the resource's name and
/// its declared attributes.
pub struct WorkerResource {
    pub name: String,
    pub network: String,
    pub url: String,
    /// The opaque configuration object, as serialized JSON, forwarded to
    /// the runtime verbatim.
    pub config_json: Vec<u8>,
    pub throughput_tier: String,
    pub auth_token: String,
    pub version: String,
    pub display_name: String,
    pub active: Option<bool>,
}

/// One frame of the watch stream.
pub enum WatchEvent {
    /// The watch (re)started.
    Init,
    /// One existing resource reported during initialization.
    InitApply(WorkerResource),
    /// Initialization finished.
    InitDone,
    /// A resource was created or updated.
    Apply(WorkerResource),
    /// A resource was deleted.
    Delete(WorkerResource),
    /// An empty frame.
    Empty,
    /// The stream failed.
    StreamFailure,
}

/// What the reconciler does with one frame.
pub enum ReconcileAction {
    /// (Re)register this worker.
    Register(WorkerResource),
    /// Remove the worker with this name.
    Remove(String),
    /// Nothing to do: an informational frame, or a resource for another
    /// pod's network.
    Ignore,
    /// The stream failed: exit, and let the pod controller restart the
    /// process.
    Exit,
}

/// The action each frame calls for.
pub open spec fn plan_spec(event: WatchEvent, pod_network: Seq<char>) -> ReconcileAction {
    match event {
        WatchEvent::Init => ReconcileAction::Ignore,
        WatchEvent::InitDone => ReconcileAction::Ignore,
        WatchEvent::Empty => ReconcileAction::Ignore,
        WatchEvent::InitApply(cr) => if normalize_spec(cr.network@) == pod_network {
            ReconcileAction::Register(cr)
        } else {
            ReconcileAction::Ignore
        },
        WatchEvent::Apply(cr) => if normalize_spec(cr.network@) == pod_network {
            ReconcileAction::Register(cr)
        } else {
            ReconcileAction::Ignore
        },
        WatchEvent::Delete(cr) => ReconcileAction::Remove(cr.name),
        WatchEvent::StreamFailure => ReconcileAction::Exit,
    }
}

/// Decides one frame of the watch stream: applies register only on a
/// network match, deletes remove unconditionally, a broken stream is fatal.
pub fn plan_event(event: WatchEvent, pod_network: &str) -> (a: ReconcileAction)
    ensures
        a == plan_spec(event, pod_network@),
{
    match event {
        WatchEvent::Init => ReconcileAction::Ignore,
        WatchEvent::InitDone => ReconcileAction::Ignore,
        WatchEvent::Empty => ReconcileAction::Ignore,
        WatchEvent::InitApply(cr) => {
            let normalized = handle_legacy_networks(cr.network.as_str());
            if str_eq(normalized.as_str(), pod_network) {
                ReconcileAction::Register(cr)
            } else {
                ReconcileAction::Ignore
            }
        },
        WatchEvent::Apply(cr) => {
            let normalized = handle_legacy_networks(cr.network.as_str());
            if str_eq(normalized.as_str(), pod_network) {
                ReconcileAction::Register(cr)
            } else {
                ReconcileAction::Ignore
            }
        },
        WatchEvent::Delete(cr) => ReconcileAction::Remove(cr.name),
        WatchEvent::StreamFailure => ReconcileAction::Exit,
    }
}

/// Law: a resource is registered only for its own pod — an apply whose
/// normalized network differs from the pod's never yields a registration,
/// and every registration the plan yields is for a matching network.
pub proof fn lemma_register_only_matching_network(event: WatchEvent, pod_network: Seq<char>)
    ensures
        forall|cr: WorkerResource|
            (event == WatchEvent::Apply(cr) || event == WatchEvent::InitApply(cr))
                && normalize_spec(cr.network@) != pod_network ==> !(plan_spec(
                event,
                pod_network,
            ) is Register),
        plan_spec(event, pod_network) matches ReconcileAction::Register(cr) ==> normalize_spec(
            cr.network@,
        ) == pod_network,
{
}

/// Where a worker's code comes from.
pub enum RegistrationSource {
    /// `s3://bucket/key`: fetch the object, register by bytes.
    ObjectStore { bucket: String, key: String },
    /// Any other URL that parses: register by URL.
    Web { url: String },
    /// The URL is unusable; registration fails with this reason.
    Invalid { reason: String },
}

/// Whether the text parses as a URL.
/// Named for `url::Url::parse`, whose outcome depends on the text alone.
pub uninterp spec fn url_parses(s: Seq<char>) -> bool;

/// Relies on `url::Url::parse`: `Ok` exactly when the text is a parseable
/// absolute URL.
#[verifier::external_body]
fn url_is_valid(s: &str) -> (r: bool)
    ensures
        r == url_parses(s@),
{
    url::Url::parse(s).is_ok()
}

/// The object-store scheme prefix.
pub open spec fn s3_prefix() -> Seq<char> {
    "s3://"@
}

/// Is this an object-store URI?
pub open spec fn is_s3_url_spec(s: Seq<char>) -> bool {
    has_prefix(s, s3_prefix())
}

/// Does `url` use the object-store scheme?
pub fn is_s3_url(url: &str) -> (r: bool)
    ensures
        r == is_s3_url_spec(url@),
{
    str_starts_with(url, "s3://")
}

/// Classifies a worker's source URL.  An object-store URI is split into its
/// bucket — the run of characters after the scheme up to the first slash —
/// and its key — what follows, with leading slashes trimmed; an empty
/// bucket is invalid.  Any other URL registers by web exactly when it
/// parses as a URL.
pub fn registration_source(url: &str) -> (r: RegistrationSource)
    ensures
        ({
            let s = url@;
            let p = s3_prefix().len() as int;
            if is_s3_url_spec(s) {
                match r {
                    RegistrationSource::ObjectStore { bucket, key } => {
                        &&& p + bucket@.len() <= s.len()
                        &&& bucket@ == s.subrange(p, p + bucket@.len() as int)
                        &&& bucket@.len() > 0
                        &&& forall|j: int| 0 <= j < bucket@.len() ==> bucket@[j] != '/'
                        &&& (p + bucket@.len() == s.len() || s[p + bucket@.len()] == '/')
                        &&& exists|q: int|
                            {
                                &&& p + bucket@.len() <= q <= s.len()
                                &&& key@ == #[trigger] s.subrange(q, s.len() as int)
                                &&& forall|j: int| p + bucket@.len() <= j < q ==> s[j] == '/'
                                &&& (q == s.len() || s[q] != '/')
                            }
                    },
                    RegistrationSource::Invalid { reason: _ } => {
                        p >= s.len() || s[p] == '/'
                    },
                    RegistrationSource::Web { .. } => false,
                }
            } else {
                if url_parses(s) {
                    r matches RegistrationSource::Web { url: u } && u@ == s
                } else {
                    r is Invalid
                }
            }
        }),
{
    proof {
        reveal_strlit("s3://");
    }
    if !is_s3_url(url) {
        if url_is_valid(url) {
            return RegistrationSource::Web { url: String::from_str(url) };
        } else {
            return RegistrationSource::Invalid {
                reason: String::from_str("relative URL without a base"),
            };
        }
    }
    let len: usize = url.unicode_len();
    let mut i: usize = 5;
    while i < len && url.get_char(i) != '/'
        invariant
            5 <= i <= len,
            len == url@.len(),
            forall|j: int| 5 <= j < i ==> url@[j] != '/',
        decreases len - i,
    {
        i = i + 1;
    }
    proof {
        assert(i == len || url@[i as int] == '/');
    }
    if i == 5 {
        return RegistrationSource::Invalid { reason: String::from_str("invalid bucket") };
    }
    let bucket = String::from_str(url.substring_char(5, i));
    let mut q: usize = i;
    while q < len && url.get_char(q) == '/'
        invariant
            i <= q <= len,
            len == url@.len(),
            forall|j: int| i <= j < q ==> url@[j] == '/',
        decreases len - q,
    {
        q = q + 1;
    }
    proof {
        assert(q == len || url@[q as int] != '/');
    }
    let key = String::from_str(url.substring_char(q, len));
    proof {
        assert(bucket@.len() == i - 5);
        assert(bucket@ == url@.subrange(5, 5 + bucket@.len() as int));
        assert(key@ == url@.subrange(q as int, url@.len() as int));
        assert forall|j: int| 0 <= j < bucket@.len() implies bucket@[j] != '/' by {
            assert(bucket@[j] == url@[5 + j]);
        }
        assert({
            let qq = q as int;
            &&& 5 + bucket@.len() <= qq <= url@.len()
            &&& key@ == url@.subrange(qq, url@.len() as int)
            &&& forall|j: int| 5 + bucket@.len() <= j < qq ==> url@[j] == '/'
            &&& (qq == url@.len() || url@[qq] != '/')
        });
    }
    RegistrationSource::ObjectStore { bucket, key }
}

/// The registry of workers that failed to register, by name, with the last
/// error.  Written by the reconciler, read by the dispatcher.
pub struct FailedWorkers {
    map: StrMap<String>,
}

impl FailedWorkers {
    /// Worker name to last error text.
    pub closed spec fn view(&self) -> Map<Seq<char>, Seq<char>> {
        self.map.view().map_values(|v: String| v@)
    }

    pub closed spec fn wf(&self) -> bool {
        self.map.wf()
    }

    /// An empty registry.
    pub fn new() -> (r: Self)
        ensures
            r.wf(),
            r.view() == Map::<Seq<char>, Seq<char>>::empty(),
    {
        let r = FailedWorkers { map: StrMap::new() };
        proof {
            assert(r.view() =~= Map::<Seq<char>, Seq<char>>::empty());
        }
        r
    }

    /// Records the worker's last registration error, replacing any earlier
    /// one.
    pub fn add(&mut self, worker_id: &str, reason: &str)
        requires
            old(self).wf(),
        ensures
            final(self).wf(),
            final(self).view() == old(self).view().insert(worker_id@, reason@),
    {
        self.map.insert(worker_id, String::from_str(reason));
        proof {
            assert(self.view() =~= old(self).view().insert(worker_id@, reason@));
        }
    }

    /// Clears the worker's record, if any.
    pub fn remove(&mut self, worker_id: &str)
        requires
            old(self).wf(),
        ensures
            final(self).wf(),
            final(self).view() == old(self).view().remove(worker_id@),
    {
        self.map.remove(worker_id);
        proof {
            assert(self.view() =~= old(self).view().remove(worker_id@));
        }
    }

    /// The worker's last error, if one is recorded.
    pub fn read(&self, worker_id: &str) -> (r: Option<String>)
        requires
            self.wf(),
        ensures
            match r {
                Some(v) => self.view().contains_key(worker_id@) && v@ == self.view()[worker_id@],
                None => !self.view().contains_key(worker_id@),
            },
    {
        match self.map.get(worker_id) {
            Some(v) => Some(String::from_str(v.as_str())),
            None => None,
        }
    }
}

/// The reconciler's view of worker state: which workers stand registered in
/// the runtime, and which failed to register.
pub struct WorkerLifecycle {
    registered: StrMap<bool>,
    failed: FailedWorkers,
}

impl WorkerLifecycle {
    /// The names registered in the runtime.
    pub closed spec fn registered_set(&self) -> Set<Seq<char>> {
        self.registered.view().dom()
    }

    /// The failed-worker registry.
    pub closed spec fn failed_map(&self) -> Map<Seq<char>, Seq<char>> {
        self.failed.view()
    }

    pub closed spec fn wf(&self) -> bool {
        self.registered.wf() && self.failed.wf()
    }

    /// No worker registered, none failed.
    pub fn new() -> (r: Self)
        ensures
            r.wf(),
            r.registered_set() == Set::<Seq<char>>::empty(),
            r.failed_map() == Map::<Seq<char>, Seq<char>>::empty(),
    {
        let r = WorkerLifecycle { registered: StrMap::new(), failed: FailedWorkers::new() };
        proof {
            assert(r.registered_set() =~= Set::<Seq<char>>::empty());
        }
        r
    }

    /// Records the outcome the runtime reported for a registration: success
    /// registers the worker and clears any earlier failure; failure records
    /// the error and leaves the runtime's state as it was.
    pub fn apply_register_outcome(&mut self, name: &str, error: Option<&String>)
        requires
            old(self).wf(),
        ensures
            final(self).wf(),
            match error {
                None => final(self).registered_set() == old(self).registered_set().insert(name@)
                    && final(self).failed_map() == old(self).failed_map().remove(name@),
                Some(e) => final(self).registered_set() == old(self).registered_set()
                    && final(self).failed_map() == old(self).failed_map().insert(name@, e@),
            },
    {
        match error {
            None => {
                self.registered.insert(name, true);
                self.failed.remove(name);
                proof {
                    assert(self.registered_set() =~= old(self).registered_set().insert(name@));
                }
            },
            Some(e) => {
                self.failed.add(name, e.as_str());
            },
        }
    }

    /// Applies a delete: the worker leaves the runtime and the
    /// failed-worker registry together.
    pub fn apply_delete(&mut self, name: &str)
        requires
            old(self).wf(),
        ensures
            final(self).wf(),
            final(self).registered_set() == old(self).registered_set().remove(name@),
            final(self).failed_map() == old(self).failed_map().remove(name@),
            !final(self).registered_set().contains(name@),
            !final(self).failed_map().contains_key(name@),
    {
        self.registered.remove(name);
        self.failed.remove(name);
        proof {
            assert(self.registered_set() =~= old(self).registered_set().remove(name@));
        }
    }

    /// The failed-worker registry, for the dispatcher.
    pub fn failed(&self) -> (r: &FailedWorkers)
        requires
            self.wf(),
        ensures
            r.wf(),
            r.view() == self.failed_map(),
    {
        &self.failed
    }
}

} // verus!
