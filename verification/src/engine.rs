//! The engine: an immutable compiled rule database, a result cache in front
//! of the classifier, and the single hot-path entry point `classify`.
//!
//! The classifier checks the families in a fixed precedence order: bot
//! patterns first — a bot match short-circuits everything else — then
//! client, device and operating-system patterns independently. An input
//! matching no family at all yields the distinct `Unrecognized` outcome,
//! never an empty `KnownClient`.

use vstd::prelude::*;

use crate::cache::{has_key, CacheKey, CacheKeyV, LruCache, Stored};
use crate::headers::{header_views, headers_sorted};
use crate::detection::{
    dup_outcome, outcome_view, Detection, DetectionV, EngineFault, KnownClient, KnownClientV,
    Unrecognized,
};
use crate::matcher::{
    bot_pats, client_pats, device_pats, extract_bot, extract_client, extract_device, extract_os,
    find_bot, find_client, find_device, find_os, first_match, lemma_capture_field_filled,
    lemma_first_match_from_spec, os_pats, spec_bot_of, spec_client_of, spec_device_of,
    spec_os_of,
};
use crate::rules::{RuleDb, RuleDbV, RuleSetSrc};

verus! {

/// The client record the database yields on `ua`, if any client rule matches.
pub open spec fn spec_client_field(db: RuleDbV, ua: Seq<char>) -> Option<
    crate::detection::ClientV,
> {
    match first_match(client_pats(db.clients), ua) {
        Option::Some(i) => Option::Some(spec_client_of(db.clients[i], ua)),
        Option::None => Option::None,
    }
}

/// The device record the database yields on `ua`, if any device rule matches.
pub open spec fn spec_device_field(db: RuleDbV, ua: Seq<char>) -> Option<
    crate::detection::DeviceV,
> {
    match first_match(device_pats(db.devices), ua) {
        Option::Some(i) => Option::Some(spec_device_of(db.devices[i], ua)),
        Option::None => Option::None,
    }
}

/// The operating-system record the database yields on `ua`, if any OS rule matches.
pub open spec fn spec_os_field(db: RuleDbV, ua: Seq<char>) -> Option<crate::detection::OsV> {
    match first_match(os_pats(db.oses), ua) {
        Option::Some(i) => Option::Some(spec_os_of(db.oses[i])),
        Option::None => Option::None,
    }
}

/// What classifying `ua` against `db` yields: the first matching bot rule if
/// any (bot precedence is absolute), else whatever subset of client, device
/// and OS rules match, else the distinct unrecognized outcome.
pub open spec fn spec_classify(db: RuleDbV, ua: Seq<char>) -> Result<DetectionV, Unrecognized> {
    match first_match(bot_pats(db.bots), ua) {
        Option::Some(i) => Result::Ok(DetectionV::Bot(spec_bot_of(db.bots[i]))),
        Option::None => {
            let c = spec_client_field(db, ua);
            let d = spec_device_field(db, ua);
            let o = spec_os_field(db, ua);
            if c is None && d is None && o is None {
                Result::Err(Unrecognized)
            } else {
                Result::Ok(DetectionV::KnownClient(KnownClientV { client: c, device: d, os: o }))
            }
        },
    }
}

/// The header pairs a call supplied, or none.
pub open spec fn given_headers(headers: Option<Vec<(String, String)>>) -> Seq<(String, String)> {
    match headers {
        Option::Some(h) => h@,
        Option::None => Seq::<(String, String)>::empty(),
    }
}

/// The key's header part is a canonical (sorted) arrangement of exactly the
/// supplied header set. By `lemma_canonical_form_unique` every such
/// arrangement agrees text for text, so the same set in any order forms the
/// same key.
pub open spec fn key_headers_canonical(k: CacheKeyV, given: Seq<(String, String)>) -> bool {
    exists|c: Seq<(String, String)>|
        c.to_multiset() == given.to_multiset() && headers_sorted(c) && k.headers == #[trigger] header_views(c)
}

/// How one classification call changes the cache, entry for entry: a key
/// already present holds the returned outcome and is promoted to
/// most-recently-used; a fresh key is appended, evicting the front — the
/// least recently used entry — when the cache stands at capacity; a
/// zero-capacity cache stays empty.
pub open spec fn cache_after(
    m0: Seq<(CacheKeyV, Stored)>,
    m1: Seq<(CacheKeyV, Stored)>,
    k: CacheKeyV,
    v: Stored,
    cap: nat,
) -> bool {
    if has_key(m0, k) {
        exists|j: int|
            0 <= j < m0.len() && (#[trigger] m0[j]) == (k, v) && m1 == m0.remove(j).push((k, v))
    } else if cap == 0 {
        m1 == m0
    } else if m0.len() < cap {
        m1 == m0.push((k, v))
    } else {
        m1 == m0.drop_first().push((k, v))
    }
}

/// A classification outcome of a well-formed database meets the result
/// invariants: a populated bot carries a non-empty name, and no optional
/// field is ever present with an empty value.
pub proof fn lemma_outcome_well_formed(db: RuleDbV, ua: Seq<char>)
    requires
        db.wf(),
    ensures
        spec_classify(db, ua) matches Ok(d) ==> d.wf(),
{
    lemma_first_match_from_spec(bot_pats(db.bots), ua, 0);
    lemma_first_match_from_spec(client_pats(db.clients), ua, 0);
    lemma_first_match_from_spec(device_pats(db.devices), ua, 0);
    lemma_first_match_from_spec(os_pats(db.oses), ua, 0);
    match first_match(bot_pats(db.bots), ua) {
        Option::Some(i) => {
            assert(db.bots[i].wf());
        },
        Option::None => {
            match first_match(client_pats(db.clients), ua) {
                Option::Some(i) => {
                    let rule = db.clients[i];
                    assert(rule.wf());
                    lemma_capture_field_filled(rule.pattern, ua, rule.version_group);
                    lemma_capture_field_filled(rule.pattern, ua, rule.engine_version_group);
                },
                Option::None => {},
            }
            match first_match(device_pats(db.devices), ua) {
                Option::Some(i) => {
                    let rule = db.devices[i];
                    assert(rule.wf());
                    lemma_capture_field_filled(rule.pattern, ua, rule.model_group);
                },
                Option::None => {},
            }
            match first_match(os_pats(db.oses), ua) {
                Option::Some(i) => {
                    assert(db.oses[i].wf());
                },
                Option::None => {},
            }
        },
    }
}

/// Every cached entry stores exactly what classifying its key would yield.
pub open spec fn entries_ok(db: RuleDbV, m: Seq<(CacheKeyV, Stored)>) -> bool {
    forall|i: int|
        0 <= i < m.len() ==> outcome_view((#[trigger] m[i]).1) == spec_classify(db, m[i].0.ua)
}

proof fn lemma_entries_ok_remove_push(
    db: RuleDbV,
    m0: Seq<(CacheKeyV, Stored)>,
    j: int,
    e: (CacheKeyV, Stored),
    m1: Seq<(CacheKeyV, Stored)>,
)
    requires
        entries_ok(db, m0),
        0 <= j < m0.len(),
        m1 == m0.remove(j).push(e),
        outcome_view(e.1) == spec_classify(db, e.0.ua),
    ensures
        entries_ok(db, m1),
{
    assert forall|i: int|
        0 <= i < m1.len() implies outcome_view((#[trigger] m1[i]).1) == spec_classify(
        db,
        m1[i].0.ua,
    ) by {
        if i < j {
            assert(m1[i] == m0[i]);
        } else if i < m1.len() - 1 {
            assert(m1[i] == m0[i + 1]);
        } else {
            assert(m1[i] == e);
        }
    }
}

proof fn lemma_entries_ok_push(
    db: RuleDbV,
    m0: Seq<(CacheKeyV, Stored)>,
    e: (CacheKeyV, Stored),
    m1: Seq<(CacheKeyV, Stored)>,
)
    requires
        entries_ok(db, m0),
        m1 == m0.push(e),
        outcome_view(e.1) == spec_classify(db, e.0.ua),
    ensures
        entries_ok(db, m1),
{
    assert forall|i: int|
        0 <= i < m1.len() implies outcome_view((#[trigger] m1[i]).1) == spec_classify(
        db,
        m1[i].0.ua,
    ) by {
        if i < m1.len() - 1 {
            assert(m1[i] == m0[i]);
        } else {
            assert(m1[i] == e);
        }
    }
}

proof fn lemma_entries_ok_drop_push(
    db: RuleDbV,
    m0: Seq<(CacheKeyV, Stored)>,
    e: (CacheKeyV, Stored),
    m1: Seq<(CacheKeyV, Stored)>,
)
    requires
        entries_ok(db, m0),
        m0.len() > 0,
        m1 == m0.drop_first().push(e),
        outcome_view(e.1) == spec_classify(db, e.0.ua),
    ensures
        entries_ok(db, m1),
{
    assert forall|i: int|
        0 <= i < m1.len() implies outcome_view((#[trigger] m1[i]).1) == spec_classify(
        db,
        m1[i].0.ua,
    ) by {
        if i < m1.len() - 1 {
            assert(m1[i] == m0[i + 1]);
        } else {
            assert(m1[i] == e);
        }
    }
}

/// Runs the classifier against the database alone, with no cache involved.
pub fn classify_uncached(db: &RuleDb, ua: &str) -> (r: Result<Detection, Unrecognized>)
    ensures
        outcome_view(r) == spec_classify(db@, ua@),
        db@.wf() ==> (r matches Ok(d) ==> d@.wf()),
{
    proof {
        if db@.wf() {
            lemma_outcome_well_formed(db@, ua@);
        }
    }
    match find_bot(&db.bots, ua) {
        Option::Some(i) => {
            let b = extract_bot(&db.bots[i]);
            proof {
                assert(db@.bots[i as int] == db.bots@[i as int]@);
            }
            Result::Ok(Detection::Bot(b))
        },
        Option::None => {
            let client = match find_client(&db.clients, ua) {
                Option::Some(i) => {
                    proof {
                        assert(db@.clients[i as int] == db.clients@[i as int]@);
                    }
                    Option::Some(extract_client(&db.clients[i], ua))
                },
                Option::None => Option::None,
            };
            let device = match find_device(&db.devices, ua) {
                Option::Some(i) => {
                    proof {
                        assert(db@.devices[i as int] == db.devices@[i as int]@);
                    }
                    Option::Some(extract_device(&db.devices[i], ua))
                },
                Option::None => Option::None,
            };
            let os = match find_os(&db.oses, ua) {
                Option::Some(i) => {
                    proof {
                        assert(db@.oses[i as int] == db.oses@[i as int]@);
                    }
                    Option::Some(extract_os(&db.oses[i]))
                },
                Option::None => Option::None,
            };
            let nothing = client.is_none() && device.is_none() && os.is_none();
            if nothing {
                Result::Err(Unrecognized)
            } else {
                Result::Ok(Detection::KnownClient(KnownClient { client, device, os }))
            }
        },
    }
}

/// One classification engine: the rule database loaded once and read-only
/// thereafter, and one result cache of fixed capacity. The cache is the
/// only mutable state, so concurrent callers share an engine behind a
/// single lock; classification itself is synchronous and CPU-bound.
pub struct Engine {
    db: RuleDb,
    cache: LruCache,
}

impl Engine {
    /// The view of the engine's rule database.
    pub closed spec fn db_view(&self) -> RuleDbV {
        self.db@
    }

    /// The cache's entries, oldest-unused first.
    pub closed spec fn cache_model(&self) -> Seq<(CacheKeyV, Stored)> {
        self.cache.model()
    }

    /// The cache capacity the engine was constructed with.
    pub closed spec fn cache_cap(&self) -> nat {
        self.cache.cap()
    }

    /// A well-formed engine: a well-formed database, a well-formed cache,
    /// and every cached entry equal to what classifying its key yields.
    pub closed spec fn wf(&self) -> bool {
        &&& self.db@.wf()
        &&& self.cache.wf()
        &&& entries_ok(self.db@, self.cache.model())
    }

    /// Builds an engine from a source rule set and a cache capacity.
    /// Succeeds exactly when the rule set is well-formed; a malformed rule
    /// set is a construction-time fault, never a per-call error. Capacity
    /// zero means an effectively uncached engine and is not an error.
    pub fn from_rules(src: &RuleSetSrc, cache_capacity: usize) -> (r: Result<Engine, EngineFault>)
        ensures
            r matches Ok(e) ==> e.wf() && e.db_view() == src@ && e.cache_cap() == cache_capacity
                && e.cache_model().len() == 0,
            r is Ok <==> src@.wf(),
            r matches Err(f) ==> f.message@.len() > 0,
    {
        match RuleDb::compile(src) {
            Result::Ok(db) => {
                let e = Engine { db, cache: LruCache::new(cache_capacity) };
                Result::Ok(e)
            },
            Result::Err(f) => Result::Err(f),
        }
    }

    /// Builds an engine over the built-in default rule set — exactly the
    /// database that `builtin_db` states. Construction succeeds precisely
    /// when that fixed rule set is well-formed, that is, when the regex
    /// engine accepts its patterns: success never depends on the capacity,
    /// so capacity zero is an effectively uncached engine, not an error.
    pub fn new(cache_capacity: usize) -> (r: Result<Engine, EngineFault>)
        ensures
            r matches Ok(e) ==> e.wf() && e.db_view() == crate::defaults::builtin_db()
                && e.cache_cap() == cache_capacity && e.cache_model().len() == 0,
            r is Ok <==> crate::defaults::builtin_db().wf(),
            r matches Err(f) ==> f.message@.len() > 0,
    {
        let src = crate::defaults::builtin_rules();
        Engine::from_rules(&src, cache_capacity)
    }

    /// The sole hot-path entry point: classifies one input string with its
    /// optional auxiliary headers. The cache in front is transparent: the
    /// result is always exactly what classifying the string against the
    /// database yields, whatever the cache holds and whatever its capacity.
    /// The headers enter the cache key as an order-independent set — the
    /// key holds them in canonical order — and never introduce a match
    /// that the string alone would not have produced.
    pub fn classify(&mut self, ua: &str, headers: Option<Vec<(String, String)>>) -> (r: Result<
        Detection,
        Unrecognized,
    >)
        requires
            old(self).wf(),
        ensures
            final(self).wf(),
            final(self).db_view() == old(self).db_view(),
            final(self).cache_cap() == old(self).cache_cap(),
            outcome_view(r) == spec_classify(old(self).db_view(), ua@),
            r matches Ok(d) ==> d@.wf(),
            exists|k: CacheKeyV|
                #[trigger] cache_after(
                    old(self).cache_model(),
                    final(self).cache_model(),
                    k,
                    r,
                    old(self).cache_cap(),
                ) && k.ua == ua@ && key_headers_canonical(k, given_headers(headers)),
    {
        proof {
            lemma_outcome_well_formed(old(self).db@, ua@);
        }
        let ghost gh = given_headers(headers);
        let canonical: Vec<(String, String)> = match headers {
            Option::Some(h) => {
                let s = crate::headers::sorted_headers(h);
                proof {
                    assert(headers_sorted(s@));
                    assert(s@.to_multiset() == gh.to_multiset());
                }
                s
            },
            Option::None => {
                let s: Vec<(String, String)> = Vec::new();
                proof {
                    assert(s@ =~= gh);
                    assert(headers_sorted(s@));
                }
                s
            },
        };
        let ghost sh = canonical@;
        let key = CacheKey { ua: ua.to_owned(), headers: canonical };
        proof {
            assert(key@.headers == header_views(sh));
            assert(key_headers_canonical(key@, gh));
        }
        match self.cache.get(&key) {
            Option::Some(v) => {
                proof {
                    let j = choose|j: int|
                        0 <= j < old(self).cache.model().len() && (
                        #[trigger] old(self).cache.model()[j]) == (key@, v) && self.cache.model()
                            == old(self).cache.model().remove(j).push((key@, v));
                    assert(outcome_view(v) == spec_classify(self.db@, key@.ua));
                    lemma_entries_ok_remove_push(
                        self.db@,
                        old(self).cache.model(),
                        j,
                        (key@, v),
                        self.cache.model(),
                    );
                    assert(has_key(old(self).cache.model(), key@));
                    assert(cache_after(
                        old(self).cache_model(),
                        self.cache_model(),
                        key@,
                        v,
                        old(self).cache_cap(),
                    ));
                    assert(key_headers_canonical(key@, gh));
                }
                v
            },
            Option::None => {
                let out = classify_uncached(&self.db, ua);
                let stored = dup_outcome(&out);
                let ghost m0 = self.cache.model();
                let ghost kv = key@;
                self.cache.put(key, stored);
                proof {
                    if self.cache.cap() == 0 {
                    } else if has_key(m0, kv) {
                        let j = choose|j: int|
                            0 <= j < m0.len() && (#[trigger] m0[j]).0 == kv && self.cache.model()
                                == m0.remove(j).push((kv, stored));
                        lemma_entries_ok_remove_push(
                            self.db@,
                            m0,
                            j,
                            (kv, stored),
                            self.cache.model(),
                        );
                    } else if m0.len() < self.cache.cap() {
                        lemma_entries_ok_push(self.db@, m0, (kv, stored), self.cache.model());
                    } else {
                        lemma_entries_ok_drop_push(self.db@, m0, (kv, stored), self.cache.model());
                    }
                    assert(cache_after(
                        old(self).cache_model(),
                        self.cache_model(),
                        kv,
                        out,
                        old(self).cache_cap(),
                    ));
                    assert(kv.ua == ua@);
                    assert(key_headers_canonical(kv, gh));
                }
                out
            },
        }
    }

    /// The cache capacity, as configured at construction.
    pub fn cache_capacity(&self) -> (r: usize)
        ensures
            r == self.cache_cap(),
    {
        self.cache.capacity_value()
    }

    /// How many results the cache holds now.
    pub fn cached_len(&self) -> (r: usize)
        ensures
            r == self.cache_model().len(),
    {
        self.cache.len()
    }

    /// The version stamp of the loaded rule database.
    pub fn db_version(&self) -> (r: String)
        ensures
            r@ == self.db_view().version,
    {
        self.db.version.clone()
    }
}

} // verus!
