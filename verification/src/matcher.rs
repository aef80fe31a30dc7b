//! The matcher: evaluates one input string against one ordered pattern
//! group. The first pattern that matches wins; extraction then reads the
//! rule's fixed fields and its capture groups.

use vstd::prelude::*;

use crate::detection::{
    opt_view, Bot, BotV, Client, ClientV, Device, DeviceV, Os, OsV, Producer, ProducerV,
};
use crate::pattern::{captured_text, pattern_matches, Pattern};
use crate::rules::{
    BotRule, BotRuleV, ClientRule, ClientRuleV, DeviceRule, DeviceRuleV, OsRule, OsRuleV,
};

verus! {

/// The least index at or after `i` whose pattern matches `input`.
pub open spec fn first_match_from(pats: Seq<Seq<char>>, input: Seq<char>, i: int) -> Option<int>
    decreases pats.len() - i,
{
    if i < 0 || i >= pats.len() {
        Option::None
    } else if pattern_matches(pats[i], input) {
        Option::Some(i)
    } else {
        first_match_from(pats, input, i + 1)
    }
}

/// The first pattern of the group that matches `input`, if any.
pub open spec fn first_match(pats: Seq<Seq<char>>, input: Seq<char>) -> Option<int> {
    first_match_from(pats, input, 0)
}

/// What `first_match_from` returns: the least matching index at or after
/// `i`, or nothing when no pattern from `i` on matches.
pub proof fn lemma_first_match_from_spec(pats: Seq<Seq<char>>, input: Seq<char>, i: int)
    requires
        0 <= i <= pats.len(),
    ensures
        match first_match_from(pats, input, i) {
            Option::Some(j) => {
                &&& i <= j < pats.len()
                &&& pattern_matches(pats[j], input)
                &&& forall|k: int| i <= k < j ==> !#[trigger] pattern_matches(pats[k], input)
            },
            Option::None => forall|k: int|
                i <= k < pats.len() ==> !#[trigger] pattern_matches(pats[k], input),
        },
    decreases pats.len() - i,
{
    if i < pats.len() && !pattern_matches(pats[i], input) {
        lemma_first_match_from_spec(pats, input, i + 1);
    }
}

/// The first match is the least matching index: a later pattern that also
/// matches is never the result. This is the first-match-wins rule.
pub proof fn lemma_first_match_wins(pats: Seq<Seq<char>>, input: Seq<char>, early: int, late: int)
    requires
        0 <= early < late < pats.len(),
        pattern_matches(pats[early], input),
        pattern_matches(pats[late], input),
    ensures
        first_match(pats, input) matches Option::Some(j) && j <= early,
        first_match(pats, input) != Option::Some(late),
{
    lemma_first_match_from_spec(pats, input, 0);
}

/// A group has a first match exactly when some pattern of it matches.
pub proof fn lemma_first_match_exists(pats: Seq<Seq<char>>, input: Seq<char>)
    ensures
        first_match(pats, input) is Some <==> exists|k: int|
            0 <= k < pats.len() && #[trigger] pattern_matches(pats[k], input),
{
    lemma_first_match_from_spec(pats, input, 0);
}

/// The pattern texts of each family's compiled rules.
pub open spec fn bot_pats(rules: Seq<BotRuleV>) -> Seq<Seq<char>> {
    rules.map_values(|r: BotRuleV| r.pattern)
}

pub open spec fn client_pats(rules: Seq<ClientRuleV>) -> Seq<Seq<char>> {
    rules.map_values(|r: ClientRuleV| r.pattern)
}

pub open spec fn device_pats(rules: Seq<DeviceRuleV>) -> Seq<Seq<char>> {
    rules.map_values(|r: DeviceRuleV| r.pattern)
}

pub open spec fn os_pats(rules: Seq<OsRuleV>) -> Seq<Seq<char>> {
    rules.map_values(|r: OsRuleV| r.pattern)
}

/// A character the version cleaner strips from the end of a captured text.
pub open spec fn is_sep(c: char) -> bool {
    c == '.' || c == ' ' || c == '/' || c == '-' || c == '_'
}

/// A captured version with its trailing separators removed; versions are
/// otherwise passed through as opaque text.
pub open spec fn trim_seps(s: Seq<char>) -> Seq<char>
    decreases s.len(),
{
    if s.len() > 0 && is_sep(s[s.len() - 1]) {
        trim_seps(s.drop_last())
    } else {
        s
    }
}

/// A cleaned field: the trimmed text when anything is left, else absent.
pub open spec fn cleaned(t: Seq<char>) -> Option<Seq<char>> {
    if trim_seps(t).len() == 0 {
        Option::None
    } else {
        Option::Some(trim_seps(t))
    }
}

/// What a capture-group template yields on `input`: the cleaned text of the
/// group, or absent when the rule has no group or the group took no part.
pub open spec fn spec_capture_field(
    pat: Seq<char>,
    input: Seq<char>,
    g: Option<usize>,
) -> Option<Seq<char>> {
    match g {
        Option::Some(gi) => match captured_text(pat, input, gi as int) {
            Option::Some(t) => cleaned(t),
            Option::None => Option::None,
        },
        Option::None => Option::None,
    }
}

/// The fields a matched bot rule yields.
pub open spec fn spec_bot_of(rule: BotRuleV) -> BotV {
    BotV {
        name: rule.name,
        category: rule.category,
        url: rule.url,
        producer: if rule.producer_name is Some || rule.producer_url is Some {
            Option::Some(ProducerV { name: rule.producer_name, url: rule.producer_url })
        } else {
            Option::None
        },
    }
}

/// The fields a matched client rule yields on `input`.
pub open spec fn spec_client_of(rule: ClientRuleV, input: Seq<char>) -> ClientV {
    ClientV {
        name: rule.name,
        kind: rule.kind,
        version: spec_capture_field(rule.pattern, input, rule.version_group),
        engine: rule.engine,
        engine_version: spec_capture_field(rule.pattern, input, rule.engine_version_group),
    }
}

/// The fields a matched device rule yields on `input`.
pub open spec fn spec_device_of(rule: DeviceRuleV, input: Seq<char>) -> DeviceV {
    DeviceV {
        brand: rule.brand,
        model: spec_capture_field(rule.pattern, input, rule.model_group),
        kind: rule.kind,
    }
}

/// The fields a matched operating-system rule yields.
pub open spec fn spec_os_of(rule: OsRuleV) -> OsV {
    OsV { name: rule.name, family: rule.family, platform: rule.platform }
}

fn is_sep_exec(c: char) -> (r: bool)
    ensures
        r == is_sep(c),
{
    c == '.' || c == ' ' || c == '/' || c == '-' || c == '_'
}

/// Trims trailing separators from a captured version; an all-separator or
/// empty capture yields no field at all.
pub fn clean_version(s: &str) -> (r: Option<String>)
    ensures
        opt_view(r) == cleaned(s@),
{
    let n = s.unicode_len();
    let mut end: usize = n;
    proof {
        assert(s@.take(n as int) =~= s@);
    }
    while end > 0 && is_sep_exec(s.get_char(end - 1))
        invariant
            end <= n,
            n == s@.len(),
            trim_seps(s@.take(end as int)) == trim_seps(s@),
        decreases end,
    {
        proof {
            assert(s@.take(end as int).drop_last() =~= s@.take(end - 1));
        }
        end = end - 1;
    }
    if end == 0 {
        proof {
            assert(s@.take(0) =~= Seq::<char>::empty());
        }
        Option::None
    } else {
        let out = s.substring_char(0, end);
        proof {
            assert(s@.take(end as int) =~= s@.subrange(0, end as int));
            assert(trim_seps(s@.take(end as int)) == s@.take(end as int));
        }
        Option::Some(out.to_owned())
    }
}

/// Reads one capture-group template off a matched pattern.
fn capture_field(pat: &Pattern, input: &str, g: &Option<usize>) -> (r: Option<String>)
    ensures
        opt_view(r) == spec_capture_field(pat.src(), input@, *g),
{
    match g {
        Option::Some(gi) => match pat.capture(input, *gi) {
            Option::Some(t) => clean_version(t.as_str()),
            Option::None => Option::None,
        },
        Option::None => Option::None,
    }
}

/// Finds the first bot rule whose pattern matches `input`.
pub fn find_bot(rules: &Vec<BotRule>, input: &str) -> (r: Option<usize>)
    ensures
        ({
            let fm = first_match(bot_pats(rules@.map_values(|c: BotRule| c@)), input@);
            match r {
                Option::Some(u) => u < rules@.len() && fm == Option::Some(u as int),
                Option::None => fm is None,
            }
        }),
{
    let ghost pats = bot_pats(rules@.map_values(|c: BotRule| c@));
    let n = rules.len();
    let mut k: usize = 0;
    while k < n
        invariant
            k <= n,
            n == rules@.len(),
            pats == bot_pats(rules@.map_values(|c: BotRule| c@)),
            pats.len() == n,
            first_match(pats, input@) == first_match_from(pats, input@, k as int),
        decreases n - k,
    {
        proof {
            assert(pats[k as int] == rules@[k as int]@.pattern);
        }
        if rules[k].pat.is_match(input) {
            return Option::Some(k);
        }
        k = k + 1;
    }
    Option::None
}

/// Finds the first client rule whose pattern matches `input`.
pub fn find_client(rules: &Vec<ClientRule>, input: &str) -> (r: Option<usize>)
    ensures
        ({
            let fm = first_match(client_pats(rules@.map_values(|c: ClientRule| c@)), input@);
            match r {
                Option::Some(u) => u < rules@.len() && fm == Option::Some(u as int),
                Option::None => fm is None,
            }
        }),
{
    let ghost pats = client_pats(rules@.map_values(|c: ClientRule| c@));
    let n = rules.len();
    let mut k: usize = 0;
    while k < n
        invariant
            k <= n,
            n == rules@.len(),
            pats == client_pats(rules@.map_values(|c: ClientRule| c@)),
            pats.len() == n,
            first_match(pats, input@) == first_match_from(pats, input@, k as int),
        decreases n - k,
    {
        proof {
            assert(pats[k as int] == rules@[k as int]@.pattern);
        }
        if rules[k].pat.is_match(input) {
            return Option::Some(k);
        }
        k = k + 1;
    }
    Option::None
}

/// Finds the first device rule whose pattern matches `input`.
pub fn find_device(rules: &Vec<DeviceRule>, input: &str) -> (r: Option<usize>)
    ensures
        ({
            let fm = first_match(device_pats(rules@.map_values(|c: DeviceRule| c@)), input@);
            match r {
                Option::Some(u) => u < rules@.len() && fm == Option::Some(u as int),
                Option::None => fm is None,
            }
        }),
{
    let ghost pats = device_pats(rules@.map_values(|c: DeviceRule| c@));
    let n = rules.len();
    let mut k: usize = 0;
    while k < n
        invariant
            k <= n,
            n == rules@.len(),
            pats == device_pats(rules@.map_values(|c: DeviceRule| c@)),
            pats.len() == n,
            first_match(pats, input@) == first_match_from(pats, input@, k as int),
        decreases n - k,
    {
        proof {
            assert(pats[k as int] == rules@[k as int]@.pattern);
        }
        if rules[k].pat.is_match(input) {
            return Option::Some(k);
        }
        k = k + 1;
    }
    Option::None
}

/// Finds the first operating-system rule whose pattern matches `input`.
pub fn find_os(rules: &Vec<OsRule>, input: &str) -> (r: Option<usize>)
    ensures
        ({
            let fm = first_match(os_pats(rules@.map_values(|c: OsRule| c@)), input@);
            match r {
                Option::Some(u) => u < rules@.len() && fm == Option::Some(u as int),
                Option::None => fm is None,
            }
        }),
{
    let ghost pats = os_pats(rules@.map_values(|c: OsRule| c@));
    let n = rules.len();
    let mut k: usize = 0;
    while k < n
        invariant
            k <= n,
            n == rules@.len(),
            pats == os_pats(rules@.map_values(|c: OsRule| c@)),
            pats.len() == n,
            first_match(pats, input@) == first_match_from(pats, input@, k as int),
        decreases n - k,
    {
        proof {
            assert(pats[k as int] == rules@[k as int]@.pattern);
        }
        if rules[k].pat.is_match(input) {
            return Option::Some(k);
        }
        k = k + 1;
    }
    Option::None
}

/// Builds the bot record a matched bot rule yields.
pub fn extract_bot(rule: &BotRule) -> (r: Bot)
    ensures
        r@ == spec_bot_of(rule@),
{
    let producer = match (&rule.producer_name, &rule.producer_url) {
        (Option::None, Option::None) => Option::None,
        _ => Option::Some(
            Producer {
                name: crate::detection::dup_opt(&rule.producer_name),
                url: crate::detection::dup_opt(&rule.producer_url),
            },
        ),
    };
    Bot {
        name: rule.name.clone(),
        category: crate::detection::dup_opt(&rule.category),
        url: crate::detection::dup_opt(&rule.url),
        producer,
    }
}

/// Builds the client record a matched client rule yields on `input`.
pub fn extract_client(rule: &ClientRule, input: &str) -> (r: Client)
    ensures
        r@ == spec_client_of(rule@, input@),
{
    Client {
        name: rule.name.clone(),
        kind: rule.kind,
        version: capture_field(&rule.pat, input, &rule.version_group),
        engine: crate::detection::dup_opt(&rule.engine),
        engine_version: capture_field(&rule.pat, input, &rule.engine_version_group),
    }
}

/// Builds the device record a matched device rule yields on `input`.
pub fn extract_device(rule: &DeviceRule, input: &str) -> (r: Device)
    ensures
        r@ == spec_device_of(rule@, input@),
{
    Device {
        brand: crate::detection::dup_opt(&rule.brand),
        model: capture_field(&rule.pat, input, &rule.model_group),
        kind: rule.kind,
    }
}

/// Builds the operating-system record a matched rule yields.
pub fn extract_os(rule: &OsRule) -> (r: Os)
    ensures
        r@ == spec_os_of(rule@),
{
    Os {
        name: rule.name.clone(),
        family: crate::detection::dup_opt(&rule.family),
        platform: crate::detection::dup_opt(&rule.platform),
    }
}

/// A cleaned field is never the empty text: extraction yields either an
/// absent field or a non-empty one.
pub proof fn lemma_capture_field_filled(pat: Seq<char>, input: Seq<char>, g: Option<usize>)
    ensures
        spec_capture_field(pat, input, g) matches Option::Some(v) ==> v.len() > 0,
{
}

} // verus!
