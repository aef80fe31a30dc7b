//! The rule database: ordered pattern groups for the four classification
//! families, each entry a pattern with an extraction template. A database is
//! described as plain source data, compiled once at engine construction, and
//! immutable afterwards.

use vstd::prelude::*;

use crate::detection::{opt_filled, opt_view, ClientKind, DeviceKind, EngineFault};
use crate::pattern::{pattern_accepted, Pattern};

verus! {

/// One bot rule as source data: the pattern and the fields a match yields.
pub struct BotRuleSrc {
    pub pattern: String,
    pub name: String,
    pub category: Option<String>,
    pub url: Option<String>,
    pub producer_name: Option<String>,
    pub producer_url: Option<String>,
}

/// The mathematical view of a bot rule, shared by its source and compiled forms.
pub struct BotRuleV {
    pub pattern: Seq<char>,
    pub name: Seq<char>,
    pub category: Option<Seq<char>>,
    pub url: Option<Seq<char>>,
    pub producer_name: Option<Seq<char>>,
    pub producer_url: Option<Seq<char>>,
}

impl View for BotRuleSrc {
    type V = BotRuleV;

    open spec fn view(&self) -> BotRuleV {
        BotRuleV {
            pattern: self.pattern@,
            name: self.name@,
            category: opt_view(self.category),
            url: opt_view(self.url),
            producer_name: opt_view(self.producer_name),
            producer_url: opt_view(self.producer_url),
        }
    }
}

impl BotRuleV {
    /// A well-formed rule names the bot and never carries an empty optional field.
    pub open spec fn wf(&self) -> bool {
        &&& self.name.len() > 0
        &&& (self.category matches Option::Some(s) ==> s.len() > 0)
        &&& (self.url matches Option::Some(s) ==> s.len() > 0)
        &&& (self.producer_name matches Option::Some(s) ==> s.len() > 0)
        &&& (self.producer_url matches Option::Some(s) ==> s.len() > 0)
    }
}

/// One client rule: the version and engine version come out of capture
/// groups of the pattern, the rest is fixed by the rule.
pub struct ClientRuleSrc {
    pub pattern: String,
    pub name: String,
    pub kind: ClientKind,
    pub version_group: Option<usize>,
    pub engine: Option<String>,
    pub engine_version_group: Option<usize>,
}

pub struct ClientRuleV {
    pub pattern: Seq<char>,
    pub name: Seq<char>,
    pub kind: ClientKind,
    pub version_group: Option<usize>,
    pub engine: Option<Seq<char>>,
    pub engine_version_group: Option<usize>,
}

impl View for ClientRuleSrc {
    type V = ClientRuleV;

    open spec fn view(&self) -> ClientRuleV {
        ClientRuleV {
            pattern: self.pattern@,
            name: self.name@,
            kind: self.kind,
            version_group: self.version_group,
            engine: opt_view(self.engine),
            engine_version_group: self.engine_version_group,
        }
    }
}

impl ClientRuleV {
    pub open spec fn wf(&self) -> bool {
        &&& self.name.len() > 0
        &&& (self.engine matches Option::Some(s) ==> s.len() > 0)
    }
}

/// One device rule: the brand is fixed by the rule, the model may come out
/// of a capture group.
pub struct DeviceRuleSrc {
    pub pattern: String,
    pub brand: Option<String>,
    pub model_group: Option<usize>,
    pub kind: Option<DeviceKind>,
}

pub struct DeviceRuleV {
    pub pattern: Seq<char>,
    pub brand: Option<Seq<char>>,
    pub model_group: Option<usize>,
    pub kind: Option<DeviceKind>,
}

impl View for DeviceRuleSrc {
    type V = DeviceRuleV;

    open spec fn view(&self) -> DeviceRuleV {
        DeviceRuleV {
            pattern: self.pattern@,
            brand: opt_view(self.brand),
            model_group: self.model_group,
            kind: self.kind,
        }
    }
}

impl DeviceRuleV {
    pub open spec fn wf(&self) -> bool {
        self.brand matches Option::Some(s) ==> s.len() > 0
    }
}

/// One operating-system rule.
pub struct OsRuleSrc {
    pub pattern: String,
    pub name: String,
    pub family: Option<String>,
    pub platform: Option<String>,
}

pub struct OsRuleV {
    pub pattern: Seq<char>,
    pub name: Seq<char>,
    pub family: Option<Seq<char>>,
    pub platform: Option<Seq<char>>,
}

impl View for OsRuleSrc {
    type V = OsRuleV;

    open spec fn view(&self) -> OsRuleV {
        OsRuleV {
            pattern: self.pattern@,
            name: self.name@,
            family: opt_view(self.family),
            platform: opt_view(self.platform),
        }
    }
}

impl OsRuleV {
    pub open spec fn wf(&self) -> bool {
        &&& self.name.len() > 0
        &&& (self.family matches Option::Some(s) ==> s.len() > 0)
        &&& (self.platform matches Option::Some(s) ==> s.len() > 0)
    }
}

/// A whole rule database as source data: one ordered group per family,
/// stamped with a version so upgrades are auditable.
pub struct RuleSetSrc {
    pub version: String,
    pub bots: Vec<BotRuleSrc>,
    pub clients: Vec<ClientRuleSrc>,
    pub devices: Vec<DeviceRuleSrc>,
    pub oses: Vec<OsRuleSrc>,
}

/// The mathematical view of a rule database.
pub struct RuleDbV {
    pub version: Seq<char>,
    pub bots: Seq<BotRuleV>,
    pub clients: Seq<ClientRuleV>,
    pub devices: Seq<DeviceRuleV>,
    pub oses: Seq<OsRuleV>,
}

impl View for RuleSetSrc {
    type V = RuleDbV;

    open spec fn view(&self) -> RuleDbV {
        RuleDbV {
            version: self.version@,
            bots: self.bots@.map_values(|r: BotRuleSrc| r@),
            clients: self.clients@.map_values(|r: ClientRuleSrc| r@),
            devices: self.devices@.map_values(|r: DeviceRuleSrc| r@),
            oses: self.oses@.map_values(|r: OsRuleSrc| r@),
        }
    }
}

impl RuleDbV {
    /// Every rule of every family is well-formed and its pattern is one the
    /// regex engine accepts.
    pub open spec fn wf(&self) -> bool {
        &&& (forall|i: int|
            0 <= i < self.bots.len() ==> (#[trigger] self.bots[i]).wf() && pattern_accepted(
                self.bots[i].pattern,
            ))
        &&& (forall|i: int|
            0 <= i < self.clients.len() ==> (#[trigger] self.clients[i]).wf() && pattern_accepted(
                self.clients[i].pattern,
            ))
        &&& (forall|i: int|
            0 <= i < self.devices.len() ==> (#[trigger] self.devices[i]).wf() && pattern_accepted(
                self.devices[i].pattern,
            ))
        &&& (forall|i: int|
            0 <= i < self.oses.len() ==> (#[trigger] self.oses[i]).wf() && pattern_accepted(
                self.oses[i].pattern,
            ))
    }
}

/// One compiled bot rule.
pub struct BotRule {
    pub pat: Pattern,
    pub name: String,
    pub category: Option<String>,
    pub url: Option<String>,
    pub producer_name: Option<String>,
    pub producer_url: Option<String>,
}

impl View for BotRule {
    type V = BotRuleV;

    open spec fn view(&self) -> BotRuleV {
        BotRuleV {
            pattern: self.pat.src(),
            name: self.name@,
            category: opt_view(self.category),
            url: opt_view(self.url),
            producer_name: opt_view(self.producer_name),
            producer_url: opt_view(self.producer_url),
        }
    }
}

pub struct ClientRule {
    pub pat: Pattern,
    pub name: String,
    pub kind: ClientKind,
    pub version_group: Option<usize>,
    pub engine: Option<String>,
    pub engine_version_group: Option<usize>,
}

impl View for ClientRule {
    type V = ClientRuleV;

    open spec fn view(&self) -> ClientRuleV {
        ClientRuleV {
            pattern: self.pat.src(),
            name: self.name@,
            kind: self.kind,
            version_group: self.version_group,
            engine: opt_view(self.engine),
            engine_version_group: self.engine_version_group,
        }
    }
}

pub struct DeviceRule {
    pub pat: Pattern,
    pub brand: Option<String>,
    pub model_group: Option<usize>,
    pub kind: Option<DeviceKind>,
}

impl View for DeviceRule {
    type V = DeviceRuleV;

    open spec fn view(&self) -> DeviceRuleV {
        DeviceRuleV {
            pattern: self.pat.src(),
            brand: opt_view(self.brand),
            model_group: self.model_group,
            kind: self.kind,
        }
    }
}

pub struct OsRule {
    pub pat: Pattern,
    pub name: String,
    pub family: Option<String>,
    pub platform: Option<String>,
}

impl View for OsRule {
    type V = OsRuleV;

    open spec fn view(&self) -> OsRuleV {
        OsRuleV {
            pattern: self.pat.src(),
            name: self.name@,
            family: opt_view(self.family),
            platform: opt_view(self.platform),
        }
    }
}

/// A compiled, immutable rule database.
pub struct RuleDb {
    pub version: String,
    pub bots: Vec<BotRule>,
    pub clients: Vec<ClientRule>,
    pub devices: Vec<DeviceRule>,
    pub oses: Vec<OsRule>,
}

impl View for RuleDb {
    type V = RuleDbV;

    open spec fn view(&self) -> RuleDbV {
        RuleDbV {
            version: self.version@,
            bots: self.bots@.map_values(|r: BotRule| r@),
            clients: self.clients@.map_values(|r: ClientRule| r@),
            devices: self.devices@.map_values(|r: DeviceRule| r@),
            oses: self.oses@.map_values(|r: OsRule| r@),
        }
    }
}

fn filled(o: &Option<String>) -> (r: bool)
    ensures
        r == opt_filled(*o),
{
    match o {
        Option::Some(s) => !s.as_str().is_empty(),
        Option::None => true,
    }
}

fn fault() -> (r: EngineFault)
    ensures
        r.message@.len() > 0,
{
    let msg = String::from_str("malformed rule database: empty field or refused pattern");
    proof {
        reveal_strlit("malformed rule database: empty field or refused pattern");
    }
    EngineFault { message: msg }
}

fn compile_bots(src: &Vec<BotRuleSrc>) -> (r: Result<Vec<BotRule>, EngineFault>)
    ensures
        r matches Ok(out) ==> out@.map_values(|c: BotRule| c@) == src@.map_values(
            |s: BotRuleSrc| s@,
        ),
        r is Ok <==> forall|i: int|
            0 <= i < src@.len() ==> (#[trigger] src@[i])@.wf() && pattern_accepted(
                src@[i].pattern@,
            ),
        r matches Err(e) ==> e.message@.len() > 0,
{
    let mut out: Vec<BotRule> = Vec::new();
    let n = src.len();
    for k in 0..n
        invariant
            n == src@.len(),
            out@.len() == k,
            out@.map_values(|c: BotRule| c@) =~= src@.map_values(|s: BotRuleSrc| s@).take(k as int),
            forall|i: int|
                0 <= i < k ==> (#[trigger] src@[i])@.wf() && pattern_accepted(src@[i].pattern@),
    {
        let s = &src[k];
        if s.name.as_str().is_empty() || !filled(&s.category) || !filled(&s.url) || !filled(
            &s.producer_name,
        ) || !filled(&s.producer_url) {
            return Err(fault());
        }
        match Pattern::compile(s.pattern.as_str()) {
            Some(pat) => {
                out.push(
                    BotRule {
                        pat,
                        name: s.name.clone(),
                        category: crate::detection::dup_opt(&s.category),
                        url: crate::detection::dup_opt(&s.url),
                        producer_name: crate::detection::dup_opt(&s.producer_name),
                        producer_url: crate::detection::dup_opt(&s.producer_url),
                    },
                );
            },
            None => {
                return Err(fault());
            },
        }
    }
    proof {
        assert(out@.map_values(|c: BotRule| c@) =~= src@.map_values(|s: BotRuleSrc| s@));
    }
    Ok(out)
}

fn compile_clients(src: &Vec<ClientRuleSrc>) -> (r: Result<Vec<ClientRule>, EngineFault>)
    ensures
        r matches Ok(out) ==> out@.map_values(|c: ClientRule| c@) == src@.map_values(
            |s: ClientRuleSrc| s@,
        ),
        r is Ok <==> forall|i: int|
            0 <= i < src@.len() ==> (#[trigger] src@[i])@.wf() && pattern_accepted(
                src@[i].pattern@,
            ),
        r matches Err(e) ==> e.message@.len() > 0,
{
    let mut out: Vec<ClientRule> = Vec::new();
    let n = src.len();
    for k in 0..n
        invariant
            n == src@.len(),
            out@.len() == k,
            out@.map_values(|c: ClientRule| c@) =~= src@.map_values(|s: ClientRuleSrc| s@).take(
                k as int,
            ),
            forall|i: int|
                0 <= i < k ==> (#[trigger] src@[i])@.wf() && pattern_accepted(src@[i].pattern@),
    {
        let s = &src[k];
        if s.name.as_str().is_empty() || !filled(&s.engine) {
            return Err(fault());
        }
        match Pattern::compile(s.pattern.as_str()) {
            Some(pat) => {
                out.push(
                    ClientRule {
                        pat,
                        name: s.name.clone(),
                        kind: s.kind,
                        version_group: s.version_group,
                        engine: crate::detection::dup_opt(&s.engine),
                        engine_version_group: s.engine_version_group,
                    },
                );
            },
            None => {
                return Err(fault());
            },
        }
    }
    proof {
        assert(out@.map_values(|c: ClientRule| c@) =~= src@.map_values(|s: ClientRuleSrc| s@));
    }
    Ok(out)
}

fn compile_devices(src: &Vec<DeviceRuleSrc>) -> (r: Result<Vec<DeviceRule>, EngineFault>)
    ensures
        r matches Ok(out) ==> out@.map_values(|c: DeviceRule| c@) == src@.map_values(
            |s: DeviceRuleSrc| s@,
        ),
        r is Ok <==> forall|i: int|
            0 <= i < src@.len() ==> (#[trigger] src@[i])@.wf() && pattern_accepted(
                src@[i].pattern@,
            ),
        r matches Err(e) ==> e.message@.len() > 0,
{
    let mut out: Vec<DeviceRule> = Vec::new();
    let n = src.len();
    for k in 0..n
        invariant
            n == src@.len(),
            out@.len() == k,
            out@.map_values(|c: DeviceRule| c@) =~= src@.map_values(|s: DeviceRuleSrc| s@).take(
                k as int,
            ),
            forall|i: int|
                0 <= i < k ==> (#[trigger] src@[i])@.wf() && pattern_accepted(src@[i].pattern@),
    {
        let s = &src[k];
        if !filled(&s.brand) {
            return Err(fault());
        }
        match Pattern::compile(s.pattern.as_str()) {
            Some(pat) => {
                out.push(
                    DeviceRule {
                        pat,
                        brand: crate::detection::dup_opt(&s.brand),
                        model_group: s.model_group,
                        kind: s.kind,
                    },
                );
            },
            None => {
                return Err(fault());
            },
        }
    }
    proof {
        assert(out@.map_values(|c: DeviceRule| c@) =~= src@.map_values(|s: DeviceRuleSrc| s@));
    }
    Ok(out)
}

fn compile_oses(src: &Vec<OsRuleSrc>) -> (r: Result<Vec<OsRule>, EngineFault>)
    ensures
        r matches Ok(out) ==> out@.map_values(|c: OsRule| c@) == src@.map_values(|s: OsRuleSrc| s@),
        r is Ok <==> forall|i: int|
            0 <= i < src@.len() ==> (#[trigger] src@[i])@.wf() && pattern_accepted(
                src@[i].pattern@,
            ),
        r matches Err(e) ==> e.message@.len() > 0,
{
    let mut out: Vec<OsRule> = Vec::new();
    let n = src.len();
    for k in 0..n
        invariant
            n == src@.len(),
            out@.len() == k,
            out@.map_values(|c: OsRule| c@) =~= src@.map_values(|s: OsRuleSrc| s@).take(k as int),
            forall|i: int|
                0 <= i < k ==> (#[trigger] src@[i])@.wf() && pattern_accepted(src@[i].pattern@),
    {
        let s = &src[k];
        if s.name.as_str().is_empty() || !filled(&s.family) || !filled(&s.platform) {
            return Err(fault());
        }
        match Pattern::compile(s.pattern.as_str()) {
            Some(pat) => {
                out.push(
                    OsRule {
                        pat,
                        name: s.name.clone(),
                        family: crate::detection::dup_opt(&s.family),
                        platform: crate::detection::dup_opt(&s.platform),
                    },
                );
            },
            None => {
                return Err(fault());
            },
        }
    }
    proof {
        assert(out@.map_values(|c: OsRule| c@) =~= src@.map_values(|s: OsRuleSrc| s@));
    }
    Ok(out)
}

impl RuleDb {
    /// Compiles a source rule set into an immutable database. Succeeds
    /// exactly when every rule is well-formed and every pattern is accepted
    /// by the regex engine; a malformed database is refused whole.
    pub fn compile(src: &RuleSetSrc) -> (r: Result<RuleDb, EngineFault>)
        ensures
            r matches Ok(db) ==> db@ == src@,
            r is Ok <==> src@.wf(),
            r matches Err(e) ==> e.message@.len() > 0,
    {
        let r_bots = compile_bots(&src.bots);
        let r_clients = compile_clients(&src.clients);
        let r_devices = compile_devices(&src.devices);
        let r_oses = compile_oses(&src.oses);
        proof {
            assert forall|i: int|
                0 <= i < src.bots@.len() implies #[trigger] src.bots@[i]@ == src@.bots[i] by {
                assert(src@.bots[i] == src.bots@[i]@);
            }
            assert forall|i: int|
                0 <= i < src.clients@.len() implies #[trigger] src.clients@[i]@
                == src@.clients[i] by {
                assert(src@.clients[i] == src.clients@[i]@);
            }
            assert forall|i: int|
                0 <= i < src.devices@.len() implies #[trigger] src.devices@[i]@
                == src@.devices[i] by {
                assert(src@.devices[i] == src.devices@[i]@);
            }
            assert forall|i: int|
                0 <= i < src.oses@.len() implies #[trigger] src.oses@[i]@ == src@.oses[i] by {
                assert(src@.oses[i] == src.oses@[i]@);
            }
            if r_bots is Ok && r_clients is Ok && r_devices is Ok && r_oses is Ok {
                assert forall|i: int|
                    0 <= i < src@.bots.len() implies (#[trigger] src@.bots[i]).wf()
                    && pattern_accepted(src@.bots[i].pattern) by {
                    assert(src.bots@[i]@.wf() && pattern_accepted(src.bots@[i].pattern@));
                }
                assert forall|i: int|
                    0 <= i < src@.clients.len() implies (#[trigger] src@.clients[i]).wf()
                    && pattern_accepted(src@.clients[i].pattern) by {
                    assert(src.clients@[i]@.wf() && pattern_accepted(src.clients@[i].pattern@));
                }
                assert forall|i: int|
                    0 <= i < src@.devices.len() implies (#[trigger] src@.devices[i]).wf()
                    && pattern_accepted(src@.devices[i].pattern) by {
                    assert(src.devices@[i]@.wf() && pattern_accepted(src.devices@[i].pattern@));
                }
                assert forall|i: int|
                    0 <= i < src@.oses.len() implies (#[trigger] src@.oses[i]).wf()
                    && pattern_accepted(src@.oses[i].pattern) by {
                    assert(src.oses@[i]@.wf() && pattern_accepted(src.oses@[i].pattern@));
                }
                assert(src@.wf());
            } else {
                assert(!src@.wf()) by {
                    if src@.wf() {
                        assert forall|i: int|
                            0 <= i < src.bots@.len() implies (#[trigger] src.bots@[i])@.wf()
                            && pattern_accepted(src.bots@[i].pattern@) by {
                            assert(src.bots@[i]@ == src@.bots[i]);
                        }
                        assert forall|i: int|
                            0 <= i < src.clients@.len() implies (#[trigger] src.clients@[i])@.wf()
                            && pattern_accepted(src.clients@[i].pattern@) by {
                            assert(src.clients@[i]@ == src@.clients[i]);
                        }
                        assert forall|i: int|
                            0 <= i < src.devices@.len() implies (#[trigger] src.devices@[i])@.wf()
                            && pattern_accepted(src.devices@[i].pattern@) by {
                            assert(src.devices@[i]@ == src@.devices[i]);
                        }
                        assert forall|i: int|
                            0 <= i < src.oses@.len() implies (#[trigger] src.oses@[i])@.wf()
                            && pattern_accepted(src.oses@[i].pattern@) by {
                            assert(src.oses@[i]@ == src@.oses[i]);
                        }
                    }
                }
            }
        }
        let bots = match r_bots {
            Ok(v) => v,
            Err(e) => {
                return Err(e);
            },
        };
        let clients = match r_clients {
            Ok(v) => v,
            Err(e) => {
                return Err(e);
            },
        };
        let devices = match r_devices {
            Ok(v) => v,
            Err(e) => {
                return Err(e);
            },
        };
        let oses = match r_oses {
            Ok(v) => v,
            Err(e) => {
                return Err(e);
            },
        };
        let db = RuleDb { version: src.version.clone(), bots, clients, devices, oses };
        proof {
            assert(db@ == src@);
        }
        Ok(db)
    }
}

} // verus!
