//! The result types of a classification: a bot, a known client stack, or the
//! distinct "unrecognized" outcome, together with their mathematical views.

use vstd::prelude::*;

verus! {

/// What kind of end-user application produced the input string.
#[derive(Clone, Copy, Debug, PartialEq, Eq, Structural)]
pub enum ClientKind {
    Browser,
    MobileApp,
    Library,
    MediaPlayer,
    FeedReader,
}

/// What class of hardware the input string points at.
#[derive(Clone, Copy, Debug, PartialEq, Eq, Structural)]
pub enum DeviceKind {
    Desktop,
    Smartphone,
    Tablet,
    Television,
    Wearable,
    Console,
}

/// The view of an optional string: present with its character sequence, or absent.
pub open spec fn opt_view(o: Option<String>) -> Option<Seq<char>> {
    match o {
        Option::Some(s) => Option::Some(s@),
        Option::None => Option::None,
    }
}

/// An optional field is either absent or present with a non-empty value.
pub open spec fn opt_filled(o: Option<String>) -> bool {
    o matches Option::Some(s) ==> s@.len() > 0
}

/// Who operates a bot, as far as the rule set records it.
#[derive(Clone, Debug, PartialEq, Eq)]
pub struct Producer {
    pub name: Option<String>,
    pub url: Option<String>,
}

pub struct ProducerV {
    pub name: Option<Seq<char>>,
    pub url: Option<Seq<char>>,
}

impl View for Producer {
    type V = ProducerV;

    open spec fn view(&self) -> ProducerV {
        ProducerV { name: opt_view(self.name), url: opt_view(self.url) }
    }
}

/// An automated, non-human agent.
#[derive(Clone, Debug, PartialEq, Eq)]
pub struct Bot {
    pub name: String,
    pub category: Option<String>,
    pub url: Option<String>,
    pub producer: Option<Producer>,
}

pub struct BotV {
    pub name: Seq<char>,
    pub category: Option<Seq<char>>,
    pub url: Option<Seq<char>>,
    pub producer: Option<ProducerV>,
}

impl View for Bot {
    type V = BotV;

    open spec fn view(&self) -> BotV {
        BotV {
            name: self.name@,
            category: opt_view(self.category),
            url: opt_view(self.url),
            producer: match self.producer {
                Option::Some(p) => Option::Some(p@),
                Option::None => Option::None,
            },
        }
    }
}

impl BotV {
    /// A populated bot always carries a non-empty name, and optional fields
    /// are never present with an empty value.
    pub open spec fn wf(&self) -> bool {
        &&& self.name.len() > 0
        &&& (self.category matches Option::Some(c) ==> c.len() > 0)
        &&& (self.url matches Option::Some(u) ==> u.len() > 0)
        &&& (self.producer matches Option::Some(p) ==> {
            &&& (p.name matches Option::Some(n) ==> n.len() > 0)
            &&& (p.url matches Option::Some(u) ==> u.len() > 0)
        })
    }
}

/// The application (browser, app, library ...) recognized in the input.
#[derive(Clone, Debug, PartialEq, Eq)]
pub struct Client {
    pub name: String,
    pub kind: ClientKind,
    pub version: Option<String>,
    pub engine: Option<String>,
    pub engine_version: Option<String>,
}

pub struct ClientV {
    pub name: Seq<char>,
    pub kind: ClientKind,
    pub version: Option<Seq<char>>,
    pub engine: Option<Seq<char>>,
    pub engine_version: Option<Seq<char>>,
}

impl View for Client {
    type V = ClientV;

    open spec fn view(&self) -> ClientV {
        ClientV {
            name: self.name@,
            kind: self.kind,
            version: opt_view(self.version),
            engine: opt_view(self.engine),
            engine_version: opt_view(self.engine_version),
        }
    }
}

impl ClientV {
    pub open spec fn wf(&self) -> bool {
        &&& self.name.len() > 0
        &&& (self.version matches Option::Some(v) ==> v.len() > 0)
        &&& (self.engine matches Option::Some(e) ==> e.len() > 0)
        &&& (self.engine_version matches Option::Some(e) ==> e.len() > 0)
    }
}

/// The hardware class recognized in the input.
#[derive(Clone, Debug, PartialEq, Eq)]
pub struct Device {
    pub brand: Option<String>,
    pub model: Option<String>,
    pub kind: Option<DeviceKind>,
}

pub struct DeviceV {
    pub brand: Option<Seq<char>>,
    pub model: Option<Seq<char>>,
    pub kind: Option<DeviceKind>,
}

impl View for Device {
    type V = DeviceV;

    open spec fn view(&self) -> DeviceV {
        DeviceV { brand: opt_view(self.brand), model: opt_view(self.model), kind: self.kind }
    }
}

impl DeviceV {
    pub open spec fn wf(&self) -> bool {
        &&& (self.brand matches Option::Some(b) ==> b.len() > 0)
        &&& (self.model matches Option::Some(m) ==> m.len() > 0)
    }
}

/// The operating system recognized in the input.
#[derive(Clone, Debug, PartialEq, Eq)]
pub struct Os {
    pub name: String,
    pub family: Option<String>,
    pub platform: Option<String>,
}

pub struct OsV {
    pub name: Seq<char>,
    pub family: Option<Seq<char>>,
    pub platform: Option<Seq<char>>,
}

impl View for Os {
    type V = OsV;

    open spec fn view(&self) -> OsV {
        OsV {
            name: self.name@,
            family: opt_view(self.family),
            platform: opt_view(self.platform),
        }
    }
}

impl OsV {
    pub open spec fn wf(&self) -> bool {
        &&& self.name.len() > 0
        &&& (self.family matches Option::Some(f) ==> f.len() > 0)
        &&& (self.platform matches Option::Some(p) ==> p.len() > 0)
    }
}

/// A recognized non-bot stack: any subset of the three sub-records may be
/// present. All three absent is still a valid, recognized outcome.
#[derive(Clone, Debug, PartialEq, Eq)]
pub struct KnownClient {
    pub client: Option<Client>,
    pub device: Option<Device>,
    pub os: Option<Os>,
}

pub struct KnownClientV {
    pub client: Option<ClientV>,
    pub device: Option<DeviceV>,
    pub os: Option<OsV>,
}

impl View for KnownClient {
    type V = KnownClientV;

    open spec fn view(&self) -> KnownClientV {
        KnownClientV {
            client: match self.client {
                Option::Some(c) => Option::Some(c@),
                Option::None => Option::None,
            },
            device: match self.device {
                Option::Some(d) => Option::Some(d@),
                Option::None => Option::None,
            },
            os: match self.os {
                Option::Some(o) => Option::Some(o@),
                Option::None => Option::None,
            },
        }
    }
}

impl KnownClientV {
    pub open spec fn wf(&self) -> bool {
        &&& (self.client matches Option::Some(c) ==> c.wf())
        &&& (self.device matches Option::Some(d) ==> d.wf())
        &&& (self.os matches Option::Some(o) ==> o.wf())
    }

    /// No sub-record at all was recognized.
    pub open spec fn is_empty(&self) -> bool {
        self.client is None && self.device is None && self.os is None
    }
}

/// A successful classification: exactly one of the two variants.
#[derive(Clone, Debug, PartialEq, Eq)]
pub enum Detection {
    Bot(Bot),
    KnownClient(KnownClient),
}

pub enum DetectionV {
    Bot(BotV),
    KnownClient(KnownClientV),
}

impl View for Detection {
    type V = DetectionV;

    open spec fn view(&self) -> DetectionV {
        match self {
            Detection::Bot(b) => DetectionV::Bot(b@),
            Detection::KnownClient(k) => DetectionV::KnownClient(k@),
        }
    }
}

impl DetectionV {
    pub open spec fn wf(&self) -> bool {
        match self {
            DetectionV::Bot(b) => b.wf(),
            DetectionV::KnownClient(k) => k.wf(),
        }
    }
}

/// The third outcome kind: the input matched no rule in any family. Not an
/// error, and distinct from a recognized but empty `KnownClient`.
#[derive(Clone, Copy, Debug, PartialEq, Eq, Structural)]
pub struct Unrecognized;

/// The view of a whole classification outcome.
pub open spec fn outcome_view(r: Result<Detection, Unrecognized>) -> Result<
    DetectionV,
    Unrecognized,
> {
    match r {
        Result::Ok(d) => Result::Ok(d@),
        Result::Err(u) => Result::Err(u),
    }
}

/// A genuine engine failure: a rule database that cannot be compiled.
#[derive(Clone, Debug, PartialEq, Eq)]
pub struct EngineFault {
    pub message: String,
}

impl EngineFault {
    /// The human-readable account of what was wrong with the database.
    pub fn message_text(&self) -> (r: String)
        ensures
            r@ == self.message@,
    {
        self.message.clone()
    }
}

/// Copies an optional string; the copy is equal to the original.
pub fn dup_opt(o: &Option<String>) -> (r: Option<String>)
    ensures
        r == *o,
{
    match o {
        Option::Some(s) => Option::Some(s.clone()),
        Option::None => Option::None,
    }
}

impl Producer {
    pub fn duplicate(&self) -> (r: Producer)
        ensures
            r == *self,
    {
        Producer { name: dup_opt(&self.name), url: dup_opt(&self.url) }
    }
}

impl Bot {
    pub fn duplicate(&self) -> (r: Bot)
        ensures
            r == *self,
    {
        Bot {
            name: self.name.clone(),
            category: dup_opt(&self.category),
            url: dup_opt(&self.url),
            producer: match &self.producer {
                Option::Some(p) => Option::Some(p.duplicate()),
                Option::None => Option::None,
            },
        }
    }
}

impl Client {
    pub fn duplicate(&self) -> (r: Client)
        ensures
            r == *self,
    {
        Client {
            name: self.name.clone(),
            kind: self.kind,
            version: dup_opt(&self.version),
            engine: dup_opt(&self.engine),
            engine_version: dup_opt(&self.engine_version),
        }
    }
}

impl Device {
    pub fn duplicate(&self) -> (r: Device)
        ensures
            r == *self,
    {
        Device { brand: dup_opt(&self.brand), model: dup_opt(&self.model), kind: self.kind }
    }
}

impl Os {
    pub fn duplicate(&self) -> (r: Os)
        ensures
            r == *self,
    {
        Os {
            name: self.name.clone(),
            family: dup_opt(&self.family),
            platform: dup_opt(&self.platform),
        }
    }
}

impl KnownClient {
    pub fn duplicate(&self) -> (r: KnownClient)
        ensures
            r == *self,
    {
        KnownClient {
            client: match &self.client {
                Option::Some(c) => Option::Some(c.duplicate()),
                Option::None => Option::None,
            },
            device: match &self.device {
                Option::Some(d) => Option::Some(d.duplicate()),
                Option::None => Option::None,
            },
            os: match &self.os {
                Option::Some(o) => Option::Some(o.duplicate()),
                Option::None => Option::None,
            },
        }
    }
}

impl Detection {
    pub fn duplicate(&self) -> (r: Detection)
        ensures
            r == *self,
    {
        match self {
            Detection::Bot(b) => Detection::Bot(b.duplicate()),
            Detection::KnownClient(k) => Detection::KnownClient(k.duplicate()),
        }
    }
}

/// Copies a whole outcome; the copy is equal to the original.
pub fn dup_outcome(r: &Result<Detection, Unrecognized>) -> (out: Result<Detection, Unrecognized>)
    ensures
        out == *r,
{
    match r {
        Result::Ok(d) => Result::Ok(d.duplicate()),
        Result::Err(u) => Result::Err(*u),
    }
}

} // verus!
