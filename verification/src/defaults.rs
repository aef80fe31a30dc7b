//! The built-in rule set: a modest, versioned default database covering
//! widespread crawlers, browsers, libraries, devices and operating systems.
//! Within each family the order is deliberate — the first match wins — so
//! the more specific rule always stands before the more general one.
//! [`builtin_db`] is the mathematical statement of the whole set;
//! [`builtin_rules`] builds exactly that set as source data.

use vstd::prelude::*;

use crate::detection::{ClientKind, DeviceKind};
use crate::rules::{
    BotRuleSrc, BotRuleV, ClientRuleSrc, ClientRuleV, DeviceRuleSrc, DeviceRuleV, OsRuleSrc,
    OsRuleV, RuleDbV, RuleSetSrc,
};

verus! {

/// The view of the built-in rule database: every rule of every family,
/// field for field. `Engine::new` pins its database to exactly this value.
pub open spec fn builtin_db() -> RuleDbV {
    RuleDbV {
        version: "builtin-1"@,
        bots: seq![
            BotRuleV {
                pattern: "Googlebot"@,
                name: "Googlebot"@,
                category: Some("Search bot"@),
                url: Some("http://www.google.com/bot.html"@),
                producer_name: Some("Google Inc."@),
                producer_url: Some("http://www.google.com"@),
            },
            BotRuleV {
                pattern: "bingbot"@,
                name: "BingBot"@,
                category: Some("Search bot"@),
                url: Some("https://www.bing.com/bingbot.htm"@),
                producer_name: Some("Microsoft Corporation"@),
                producer_url: Some("https://www.microsoft.com"@),
            },
            BotRuleV {
                pattern: "DuckDuckBot"@,
                name: "DuckDuckBot"@,
                category: Some("Search bot"@),
                url: Some("https://duckduckgo.com/duckduckbot"@),
                producer_name: Some("DuckDuckGo"@),
                producer_url: Some("https://duckduckgo.com"@),
            },
            BotRuleV {
                pattern: "AhrefsBot"@,
                name: "AhrefsBot"@,
                category: Some("Crawler"@),
                url: Some("https://ahrefs.com/robot"@),
                producer_name: Some("Ahrefs Pte Ltd"@),
                producer_url: Some("https://ahrefs.com"@),
            },
            BotRuleV {
                pattern: "crawler|spider|scraper"@,
                name: "Generic Crawler"@,
                category: Some("Crawler"@),
                url: None,
                producer_name: None,
                producer_url: None,
            },
        ],
        clients: seq![
            ClientRuleV {
                pattern: "Edg(?:e|A|iOS)?/([0-9.]+)"@,
                name: "Microsoft Edge"@,
                kind: ClientKind::Browser,
                version_group: Some(1usize),
                engine: Some("Blink"@),
                engine_version_group: None,
            },
            ClientRuleV {
                pattern: "OPR/([0-9.]+)"@,
                name: "Opera"@,
                kind: ClientKind::Browser,
                version_group: Some(1usize),
                engine: Some("Blink"@),
                engine_version_group: None,
            },
            ClientRuleV {
                pattern: "Chrome/([0-9.]+)"@,
                name: "Chrome"@,
                kind: ClientKind::Browser,
                version_group: Some(1usize),
                engine: Some("Blink"@),
                engine_version_group: None,
            },
            ClientRuleV {
                pattern: "Firefox/([0-9.]+)"@,
                name: "Firefox"@,
                kind: ClientKind::Browser,
                version_group: Some(1usize),
                engine: Some("Gecko"@),
                engine_version_group: None,
            },
            ClientRuleV {
                pattern: "Version/([0-9.]+).+Safari"@,
                name: "Safari"@,
                kind: ClientKind::Browser,
                version_group: Some(1usize),
                engine: Some("WebKit"@),
                engine_version_group: None,
            },
            ClientRuleV {
                pattern: "curl/([0-9.]+)"@,
                name: "curl"@,
                kind: ClientKind::Library,
                version_group: Some(1usize),
                engine: None,
                engine_version_group: None,
            },
            ClientRuleV {
                pattern: "python-requests/([0-9.]+)"@,
                name: "Python Requests"@,
                kind: ClientKind::Library,
                version_group: Some(1usize),
                engine: None,
                engine_version_group: None,
            },
            ClientRuleV {
                pattern: "VLC/([0-9.]+)"@,
                name: "VLC"@,
                kind: ClientKind::MediaPlayer,
                version_group: Some(1usize),
                engine: None,
                engine_version_group: None,
            },
        ],
        devices: seq![
            DeviceRuleV {
                pattern: "(SM-[A-Z0-9]+)"@,
                brand: Some("Samsung"@),
                model_group: Some(1usize),
                kind: Some(DeviceKind::Smartphone),
            },
            DeviceRuleV {
                pattern: "iPhone"@,
                brand: Some("Apple"@),
                model_group: None,
                kind: Some(DeviceKind::Smartphone),
            },
            DeviceRuleV {
                pattern: "iPad"@,
                brand: Some("Apple"@),
                model_group: None,
                kind: Some(DeviceKind::Tablet),
            },
            DeviceRuleV {
                pattern: "SMART-TV|SmartTV|GoogleTV"@,
                brand: None,
                model_group: None,
                kind: Some(DeviceKind::Television),
            },
            DeviceRuleV {
                pattern: "Android.+Mobile"@,
                brand: None,
                model_group: None,
                kind: Some(DeviceKind::Smartphone),
            },
            DeviceRuleV {
                pattern: "Android"@,
                brand: None,
                model_group: None,
                kind: Some(DeviceKind::Tablet),
            },
            DeviceRuleV {
                pattern: "Windows NT|Macintosh|X11; Linux"@,
                brand: None,
                model_group: None,
                kind: Some(DeviceKind::Desktop),
            },
        ],
        oses: seq![
            OsRuleV {
                pattern: "Windows NT 10\\.0"@,
                name: "Windows 10"@,
                family: Some("Windows"@),
                platform: None,
            },
            OsRuleV {
                pattern: "Windows NT"@,
                name: "Windows"@,
                family: Some("Windows"@),
                platform: None,
            },
            OsRuleV {
                pattern: "iPhone OS|iOS"@,
                name: "iOS"@,
                family: Some("iOS"@),
                platform: None,
            },
            OsRuleV {
                pattern: "Mac OS X"@,
                name: "macOS"@,
                family: Some("Mac"@),
                platform: None,
            },
            OsRuleV {
                pattern: "Android"@,
                name: "Android"@,
                family: Some("Android"@),
                platform: None,
            },
            OsRuleV {
                pattern: "Linux"@,
                name: "GNU/Linux"@,
                family: Some("Linux"@),
                platform: None,
            },
        ],
    }
}

fn bot(
    pattern: &str,
    name: &str,
    category: &str,
    url: &str,
    producer_name: &str,
    producer_url: &str,
) -> (r: BotRuleSrc)
    ensures
        r@ == (BotRuleV {
            pattern: pattern@,
            name: name@,
            category: Some(category@),
            url: Some(url@),
            producer_name: Some(producer_name@),
            producer_url: Some(producer_url@),
        }),
{
    BotRuleSrc {
        pattern: pattern.to_owned(),
        name: name.to_owned(),
        category: Option::Some(category.to_owned()),
        url: Option::Some(url.to_owned()),
        producer_name: Option::Some(producer_name.to_owned()),
        producer_url: Option::Some(producer_url.to_owned()),
    }
}

fn client(pattern: &str, name: &str, kind: ClientKind, engine: Option<&str>) -> (r: ClientRuleSrc)
    ensures
        r@ == (ClientRuleV {
            pattern: pattern@,
            name: name@,
            kind,
            version_group: Some(1usize),
            engine: match engine {
                Some(e) => Some(e@),
                None => None,
            },
            engine_version_group: None,
        }),
{
    ClientRuleSrc {
        pattern: pattern.to_owned(),
        name: name.to_owned(),
        kind,
        version_group: Option::Some(1),
        engine: match engine {
            Option::Some(e) => Option::Some(e.to_owned()),
            Option::None => Option::None,
        },
        engine_version_group: Option::None,
    }
}

/// The default rule database an engine loads when the caller supplies none:
/// exactly the set that [`builtin_db`] states.
pub fn builtin_rules() -> (r: RuleSetSrc)
    ensures
        r@ == builtin_db(),
{
    let bots: Vec<BotRuleSrc> = vec![
        bot(
            "Googlebot",
            "Googlebot",
            "Search bot",
            "http://www.google.com/bot.html",
            "Google Inc.",
            "http://www.google.com",
        ),
        bot(
            "bingbot",
            "BingBot",
            "Search bot",
            "https://www.bing.com/bingbot.htm",
            "Microsoft Corporation",
            "https://www.microsoft.com",
        ),
        bot(
            "DuckDuckBot",
            "DuckDuckBot",
            "Search bot",
            "https://duckduckgo.com/duckduckbot",
            "DuckDuckGo",
            "https://duckduckgo.com",
        ),
        bot(
            "AhrefsBot",
            "AhrefsBot",
            "Crawler",
            "https://ahrefs.com/robot",
            "Ahrefs Pte Ltd",
            "https://ahrefs.com",
        ),
        BotRuleSrc {
            pattern: "crawler|spider|scraper".to_owned(),
            name: "Generic Crawler".to_owned(),
            category: Option::Some("Crawler".to_owned()),
            url: Option::None,
            producer_name: Option::None,
            producer_url: Option::None,
        },
    ];
    let clients: Vec<ClientRuleSrc> = vec![
        client(
            "Edg(?:e|A|iOS)?/([0-9.]+)",
            "Microsoft Edge",
            ClientKind::Browser,
            Option::Some("Blink"),
        ),
        client("OPR/([0-9.]+)", "Opera", ClientKind::Browser, Option::Some("Blink")),
        client("Chrome/([0-9.]+)", "Chrome", ClientKind::Browser, Option::Some("Blink")),
        client("Firefox/([0-9.]+)", "Firefox", ClientKind::Browser, Option::Some("Gecko")),
        client(
            "Version/([0-9.]+).+Safari",
            "Safari",
            ClientKind::Browser,
            Option::Some("WebKit"),
        ),
        client("curl/([0-9.]+)", "curl", ClientKind::Library, Option::None),
        client("python-requests/([0-9.]+)", "Python Requests", ClientKind::Library, Option::None),
        client("VLC/([0-9.]+)", "VLC", ClientKind::MediaPlayer, Option::None),
    ];
    let devices: Vec<DeviceRuleSrc> = vec![
        DeviceRuleSrc {
            pattern: "(SM-[A-Z0-9]+)".to_owned(),
            brand: Option::Some("Samsung".to_owned()),
            model_group: Option::Some(1),
            kind: Option::Some(DeviceKind::Smartphone),
        },
        DeviceRuleSrc {
            pattern: "iPhone".to_owned(),
            brand: Option::Some("Apple".to_owned()),
            model_group: Option::None,
            kind: Option::Some(DeviceKind::Smartphone),
        },
        DeviceRuleSrc {
            pattern: "iPad".to_owned(),
            brand: Option::Some("Apple".to_owned()),
            model_group: Option::None,
            kind: Option::Some(DeviceKind::Tablet),
        },
        DeviceRuleSrc {
            pattern: "SMART-TV|SmartTV|GoogleTV".to_owned(),
            brand: Option::None,
            model_group: Option::None,
            kind: Option::Some(DeviceKind::Television),
        },
        DeviceRuleSrc {
            pattern: "Android.+Mobile".to_owned(),
            brand: Option::None,
            model_group: Option::None,
            kind: Option::Some(DeviceKind::Smartphone),
        },
        DeviceRuleSrc {
            pattern: "Android".to_owned(),
            brand: Option::None,
            model_group: Option::None,
            kind: Option::Some(DeviceKind::Tablet),
        },
        DeviceRuleSrc {
            pattern: "Windows NT|Macintosh|X11; Linux".to_owned(),
            brand: Option::None,
            model_group: Option::None,
            kind: Option::Some(DeviceKind::Desktop),
        },
    ];
    let oses: Vec<OsRuleSrc> = vec![
        OsRuleSrc {
            pattern: "Windows NT 10\\.0".to_owned(),
            name: "Windows 10".to_owned(),
            family: Option::Some("Windows".to_owned()),
            platform: Option::None,
        },
        OsRuleSrc {
            pattern: "Windows NT".to_owned(),
            name: "Windows".to_owned(),
            family: Option::Some("Windows".to_owned()),
            platform: Option::None,
        },
        OsRuleSrc {
            pattern: "iPhone OS|iOS".to_owned(),
            name: "iOS".to_owned(),
            family: Option::Some("iOS".to_owned()),
            platform: Option::None,
        },
        OsRuleSrc {
            pattern: "Mac OS X".to_owned(),
            name: "macOS".to_owned(),
            family: Option::Some("Mac".to_owned()),
            platform: Option::None,
        },
        OsRuleSrc {
            pattern: "Android".to_owned(),
            name: "Android".to_owned(),
            family: Option::Some("Android".to_owned()),
            platform: Option::None,
        },
        OsRuleSrc {
            pattern: "Linux".to_owned(),
            name: "GNU/Linux".to_owned(),
            family: Option::Some("Linux".to_owned()),
            platform: Option::None,
        },
    ];
    let r = RuleSetSrc { version: "builtin-1".to_owned(), bots, clients, devices, oses };
    proof {
        assert(r.bots@.map_values(|x: BotRuleSrc| x@) =~= builtin_db().bots);
        assert(r.clients@.map_values(|x: ClientRuleSrc| x@) =~= builtin_db().clients);
        assert(r.devices@.map_values(|x: DeviceRuleSrc| x@) =~= builtin_db().devices);
        assert(r.oses@.map_values(|x: OsRuleSrc| x@) =~= builtin_db().oses);
        assert(r@ == builtin_db());
    }
    r
}

} // verus!
