//! The engine's cross-cutting guarantees, each stated over the same spec
//! functions that the executable functions' contracts use, and proved once.

use vstd::prelude::*;

use crate::cache::{has_key, CacheKeyV, Stored};
use crate::detection::{DetectionV, KnownClientV, Unrecognized};
use crate::engine::{spec_classify, spec_client_field, spec_device_field, spec_os_field};
use crate::matcher::{
    bot_pats, client_pats, device_pats, first_match, lemma_first_match_exists,
    lemma_first_match_wins, os_pats, spec_bot_of, spec_client_of, spec_device_of, spec_os_of,
};
use crate::pattern::pattern_matches;
use crate::rules::RuleDbV;

verus! {

/// Bot precedence is absolute: whenever any bot pattern matches the input,
/// classification yields a bot, whatever the client, device or OS families
/// would have said.
pub proof fn lemma_bot_precedence(db: RuleDbV, ua: Seq<char>)
    requires
        exists|i: int|
            0 <= i < db.bots.len() && #[trigger] pattern_matches(db.bots[i].pattern, ua),
    ensures
        spec_classify(db, ua) matches Ok(d) && d is Bot,
{
    let pats = bot_pats(db.bots);
    let i = choose|i: int|
        0 <= i < db.bots.len() && #[trigger] pattern_matches(db.bots[i].pattern, ua);
    assert(pats[i] == db.bots[i].pattern);
    lemma_first_match_exists(pats, ua);
}

/// Within a family, the extracted fields come from the first declared rule
/// that matches, never a later one: here stated for the client family, whose
/// fields carry the richest extraction.
pub proof fn lemma_client_fields_from_first(db: RuleDbV, ua: Seq<char>, early: int, late: int)
    requires
        0 <= early < late < db.clients.len(),
        pattern_matches(db.clients[early].pattern, ua),
        pattern_matches(db.clients[late].pattern, ua),
    ensures
        ({
            let fm = first_match(client_pats(db.clients), ua);
            &&& fm matches Some(w) && w <= early && w != late
            &&& (fm matches Some(w) ==> spec_client_field(db, ua) == Some(
                spec_client_of(db.clients[w], ua),
            ))
        }),
{
    let pats = client_pats(db.clients);
    assert(pats[early] == db.clients[early].pattern);
    assert(pats[late] == db.clients[late].pattern);
    lemma_first_match_wins(pats, ua, early, late);
}

/// The first-declared matching bot rule is the one whose fields the
/// outcome carries, never a later one.
pub proof fn lemma_bot_fields_from_first(db: RuleDbV, ua: Seq<char>, early: int, late: int)
    requires
        0 <= early < late < db.bots.len(),
        pattern_matches(db.bots[early].pattern, ua),
        pattern_matches(db.bots[late].pattern, ua),
    ensures
        ({
            let fm = first_match(bot_pats(db.bots), ua);
            &&& fm matches Some(w) && w <= early && w != late
            &&& (fm matches Some(w) ==> spec_classify(db, ua) == Ok::<DetectionV, Unrecognized>(
                DetectionV::Bot(spec_bot_of(db.bots[w])),
            ))
        }),
{
    let pats = bot_pats(db.bots);
    assert(pats[early] == db.bots[early].pattern);
    assert(pats[late] == db.bots[late].pattern);
    lemma_first_match_wins(pats, ua, early, late);
}

/// The first-declared matching device rule supplies the device record,
/// never a later one.
pub proof fn lemma_device_fields_from_first(db: RuleDbV, ua: Seq<char>, early: int, late: int)
    requires
        0 <= early < late < db.devices.len(),
        pattern_matches(db.devices[early].pattern, ua),
        pattern_matches(db.devices[late].pattern, ua),
    ensures
        ({
            let fm = first_match(device_pats(db.devices), ua);
            &&& fm matches Some(w) && w <= early && w != late
            &&& (fm matches Some(w) ==> spec_device_field(db, ua) == Some(
                spec_device_of(db.devices[w], ua),
            ))
        }),
{
    let pats = device_pats(db.devices);
    assert(pats[early] == db.devices[early].pattern);
    assert(pats[late] == db.devices[late].pattern);
    lemma_first_match_wins(pats, ua, early, late);
}

/// The first-declared matching operating-system rule supplies the OS
/// record, never a later one.
pub proof fn lemma_os_fields_from_first(db: RuleDbV, ua: Seq<char>, early: int, late: int)
    requires
        0 <= early < late < db.oses.len(),
        pattern_matches(db.oses[early].pattern, ua),
        pattern_matches(db.oses[late].pattern, ua),
    ensures
        ({
            let fm = first_match(os_pats(db.oses), ua);
            &&& fm matches Some(w) && w <= early && w != late
            &&& (fm matches Some(w) ==> spec_os_field(db, ua) == Some(spec_os_of(db.oses[w])))
        }),
{
    let pats = os_pats(db.oses);
    assert(pats[early] == db.oses[early].pattern);
    assert(pats[late] == db.oses[late].pattern);
    lemma_first_match_wins(pats, ua, early, late);
}

/// Classification is a function of the rule database and the input text
/// alone. `Engine::classify` ensures its result equals `spec_classify`
/// whatever the cache holds and whatever its capacity, so two calls with the
/// same input against the same database — cached, uncached, or interleaved
/// with other traffic — return equal detections.
pub proof fn lemma_classification_deterministic(
    db: RuleDbV,
    ua: Seq<char>,
    r1: Result<DetectionV, Unrecognized>,
    r2: Result<DetectionV, Unrecognized>,
)
    requires
        r1 == spec_classify(db, ua),
        r2 == spec_classify(db, ua),
    ensures
        r1 == r2,
{
}

/// The cache is transparent: an engine with capacity zero and an engine with
/// any other capacity, over equal databases, yield equal outcomes for every
/// input. Only latency may differ.
pub proof fn lemma_cache_transparent(
    db_uncached: RuleDbV,
    db_cached: RuleDbV,
    ua: Seq<char>,
    r_uncached: Result<DetectionV, Unrecognized>,
    r_cached: Result<DetectionV, Unrecognized>,
)
    requires
        db_uncached == db_cached,
        r_uncached == spec_classify(db_uncached, ua),
        r_cached == spec_classify(db_cached, ua),
    ensures
        r_uncached == r_cached,
{
}

/// The outcome kinds partition the inputs: classification yields
/// `Unrecognized` exactly when no pattern of any family matches, and a
/// recognized non-bot outcome is never the empty record.
pub proof fn lemma_unrecognized_iff_no_match(db: RuleDbV, ua: Seq<char>)
    ensures
        spec_classify(db, ua) is Err <==> ({
            &&& (forall|i: int|
                0 <= i < db.bots.len() ==> !#[trigger] pattern_matches(db.bots[i].pattern, ua))
            &&& (forall|i: int|
                0 <= i < db.clients.len() ==> !#[trigger] pattern_matches(
                    db.clients[i].pattern,
                    ua,
                ))
            &&& (forall|i: int|
                0 <= i < db.devices.len() ==> !#[trigger] pattern_matches(
                    db.devices[i].pattern,
                    ua,
                ))
            &&& (forall|i: int|
                0 <= i < db.oses.len() ==> !#[trigger] pattern_matches(db.oses[i].pattern, ua))
        }),
        spec_classify(db, ua) matches Ok(DetectionV::KnownClient(k)) ==> !k.is_empty(),
{
    let bp = bot_pats(db.bots);
    let cp = client_pats(db.clients);
    let dp = device_pats(db.devices);
    let op = os_pats(db.oses);
    assert(forall|i: int| 0 <= i < db.bots.len() ==> bp[i] == (#[trigger] db.bots[i]).pattern);
    assert(forall|i: int|
        0 <= i < db.clients.len() ==> cp[i] == (#[trigger] db.clients[i]).pattern);
    assert(forall|i: int|
        0 <= i < db.devices.len() ==> dp[i] == (#[trigger] db.devices[i]).pattern);
    assert(forall|i: int| 0 <= i < db.oses.len() ==> op[i] == (#[trigger] db.oses[i]).pattern);
    lemma_first_match_exists(bp, ua);
    lemma_first_match_exists(cp, ua);
    lemma_first_match_exists(dp, ua);
    lemma_first_match_exists(op, ua);
    if first_match(bp, ua) is None {
        let c = spec_client_field(db, ua);
        let d = spec_device_field(db, ua);
        let o = spec_os_field(db, ua);
        if !(c is None && d is None && o is None) {
            let k = KnownClientV { client: c, device: d, os: o };
            assert(spec_classify(db, ua) == Result::<DetectionV, Unrecognized>::Ok(
                DetectionV::KnownClient(k),
            ));
            assert(!k.is_empty());
        }
    }
}

/// Inserting a fresh key into a full cache evicts exactly the
/// least-recently-used entry — the front of the recency order — and no
/// other: the new key is present, every other key survives.
pub proof fn lemma_lru_eviction(
    m0: Seq<(CacheKeyV, Stored)>,
    e: (CacheKeyV, Stored),
    m1: Seq<(CacheKeyV, Stored)>,
)
    requires
        m0.len() > 0,
        m1 == m0.drop_first().push(e),
        !has_key(m0, e.0),
        forall|x: int, y: int|
            0 <= x < y < m0.len() ==> (#[trigger] m0[x]).0 != (#[trigger] m0[y]).0,
    ensures
        m1.len() == m0.len(),
        !has_key(m1, m0[0].0),
        has_key(m1, e.0),
        forall|x: int| 0 < x < m0.len() ==> has_key(m1, (#[trigger] m0[x]).0),
{
    assert(m1[m1.len() - 1] == e);
    assert forall|i: int| 0 <= i < m1.len() implies (#[trigger] m1[i]).0 != m0[0].0 by {
        if i < m1.len() - 1 {
            assert(m1[i] == m0[i + 1]);
        } else {
            assert(m1[i] == e);
            assert(m0[0].0 == (#[trigger] m0[0]).0);
        }
    }
    assert forall|x: int| 0 < x < m0.len() implies has_key(m1, (#[trigger] m0[x]).0) by {
        assert(m1[x - 1] == m0[x]);
    }
}

/// Re-accessing a key resets its recency: after a hit the touched entry
/// stands at the back of the recency order, the most-recently-used
/// position, and every key survives.
pub proof fn lemma_promotion_resets_recency(
    m0: Seq<(CacheKeyV, Stored)>,
    j: int,
    m1: Seq<(CacheKeyV, Stored)>,
)
    requires
        0 <= j < m0.len(),
        m1 == m0.remove(j).push(m0[j]),
    ensures
        m1.len() == m0.len(),
        m1[m1.len() - 1] == m0[j],
        forall|x: int| 0 <= x < m0.len() ==> has_key(m1, (#[trigger] m0[x]).0),
{
    assert forall|x: int| 0 <= x < m0.len() implies has_key(m1, (#[trigger] m0[x]).0) by {
        if x < j {
            assert(m1[x] == m0[x]);
        } else if x == j {
            assert(m1[m1.len() - 1] == m0[j]);
        } else {
            assert(m1[x - 1] == m0[x]);
        }
    }
}

} // verus!
