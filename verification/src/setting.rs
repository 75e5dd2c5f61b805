//! The settings that the gateway and the DNS handler are started with.

use vstd::prelude::*;
use crate::text::{lowercase, to_lowercase};

verus! {

/// The views of the strings in `texts`, in the same order.
pub open spec fn texts(strings: Seq<String>) -> Seq<Seq<char>> {
    strings.map_values(|s: String| s@)
}

/// What a rule is about, as a mathematical value.
pub enum RuleKind {
    Route,
    Domain,
    DnsCidrArea,
    DnsCidr,
    Unknown(Seq<char>),
}

/// What a rule is about. A name that is none of the known ones is kept
/// exactly as it was given.
#[derive(Debug, PartialEq)]
pub enum RuleType {
    Route,
    Domain,
    DnsCidrArea,
    DnsCidr,
    Unknown(String),
}

impl View for RuleType {
    type V = RuleKind;

    open spec fn view(&self) -> RuleKind {
        match self {
            RuleType::Route => RuleKind::Route,
            RuleType::Domain => RuleKind::Domain,
            RuleType::DnsCidrArea => RuleKind::DnsCidrArea,
            RuleType::DnsCidr => RuleKind::DnsCidr,
            RuleType::Unknown(name) => RuleKind::Unknown(name@),
        }
    }
}

/// Whether `lowered` is one of the four known names.
pub open spec fn known_name(lowered: Seq<char>) -> bool {
    lowered == "route"@ || lowered == "domain"@ || lowered == "dnscidr"@ || lowered
        == "dnscidrarea"@
}

/// The kind that the name `tag` stands for, `lowered` being `tag` in lower
/// case: one of the four known kinds where `lowered` is its name, and
/// otherwise the unknown kind that carries `tag` as it is.
pub open spec fn tag_kind(tag: Seq<char>, lowered: Seq<char>) -> RuleKind {
    if lowered == "route"@ {
        RuleKind::Route
    } else if lowered == "domain"@ {
        RuleKind::Domain
    } else if lowered == "dnscidr"@ {
        RuleKind::DnsCidr
    } else if lowered == "dnscidrarea"@ {
        RuleKind::DnsCidrArea
    } else {
        RuleKind::Unknown(tag)
    }
}

impl RuleType {
    /// The kind that `name` stands for. The four known names are taken
    /// whatever the case of their letters; any other name is kept as it is.
    pub fn from_name(name: &str) -> (rule_type: RuleType)
        ensures
            rule_type@ == tag_kind(name@, lowercase(name@)),
    {
        Self::from_tag(name, to_lowercase(name))
    }

    /// The kind that the name `tag` stands for, `lowered` being `tag` in
    /// lower case.
    pub fn from_tag(tag: &str, lowered: String) -> (rule_type: RuleType)
        ensures
            rule_type@ == tag_kind(tag@, lowered@),
    {
        match Self::from_lowered(lowered) {
            RuleType::Unknown(_) => RuleType::Unknown(tag.to_owned()),
            known => known,
        }
    }

    /// The kind that the name `lowered` stands for, taken letter for letter.
    pub fn from_lowered(lowered: String) -> (rule_type: RuleType)
        ensures
            rule_type@ == tag_kind(lowered@, lowered@),
    {
        if lowered == "route".to_owned() {
            RuleType::Route
        } else if lowered == "domain".to_owned() {
            RuleType::Domain
        } else if lowered == "dnscidr".to_owned() {
            RuleType::DnsCidr
        } else if lowered == "dnscidrarea".to_owned() {
            RuleType::DnsCidrArea
        } else {
            RuleType::Unknown(lowered)
        }
    }

    /// Whether this is the kind of rule that names static routes.
    pub fn is_route(&self) -> (route: bool)
        ensures
            route == (self@ is Route),
    {
        match self {
            RuleType::Route => true,
            _ => false,
        }
    }
}

/// A name that is none of the four known ones is never changed: the kind
/// is unknown exactly when the name in lower case is none of the four, and
/// then it carries the name as it was given.
pub proof fn lemma_unknown_tag_is_kept(tag: Seq<char>, lowered: Seq<char>)
    ensures
        tag_kind(tag, lowered) is Unknown <==> !known_name(lowered),
        !known_name(lowered) ==> tag_kind(tag, lowered) == RuleKind::Unknown(tag),
        known_name(lowered) ==> tag_kind(tag, lowered) == tag_kind(lowered, lowered),
{
}

/// A named list of proxy servers, as a mathematical value.
pub struct ProxyView {
    pub name: Seq<char>,
    pub values: Seq<Seq<char>>,
}

/// A named list of proxy servers.
#[derive(Debug)]
pub struct Proxy {
    pub name: String,
    pub values: Vec<String>,
}

impl View for Proxy {
    type V = ProxyView;

    open spec fn view(&self) -> ProxyView {
        ProxyView { name: self.name@, values: texts(self.values@) }
    }
}

/// A rule, as a mathematical value.
pub struct RuleView {
    pub rule_type: RuleKind,
    pub target: Seq<char>,
    pub values: Seq<Seq<char>>,
}

/// A rule: its kind, its target and the values it holds for.
#[derive(Debug)]
pub struct Rule {
    pub rule_type: RuleType,
    pub target: String,
    pub values: Vec<String>,
}

impl View for Rule {
    type V = RuleView;

    open spec fn view(&self) -> RuleView {
        RuleView { rule_type: self.rule_type@, target: self.target@, values: texts(self.values@) }
    }
}

/// The settings, as a mathematical value.
pub struct SettingView {
    pub dns_port: int,
    pub dns_ttl: int,
    pub dns_upstream: Seq<Seq<char>>,
    pub dns_fallback: Seq<Seq<char>>,
    pub metrics: Seq<char>,
    pub network: Seq<Seq<char>>,
    pub proxy: Seq<ProxyView>,
    pub hosts: Seq<char>,
    pub rules: Seq<RuleView>,
}

/// The settings of one process. They are read once and never changed.
#[derive(Debug)]
pub struct Setting {
    pub dns_port: i64,
    pub dns_ttl: i64,
    pub dns_upstream: Vec<String>,
    pub dns_fallback: Vec<String>,
    pub metrics: String,
    pub network: Vec<String>,
    pub proxy: Vec<Proxy>,
    pub hosts: String,
    pub rules: Vec<Rule>,
}

impl View for Setting {
    type V = SettingView;

    open spec fn view(&self) -> SettingView {
        SettingView {
            dns_port: self.dns_port as int,
            dns_ttl: self.dns_ttl as int,
            dns_upstream: texts(self.dns_upstream@),
            dns_fallback: texts(self.dns_fallback@),
            metrics: self.metrics@,
            network: texts(self.network@),
            proxy: self.proxy@.map_values(|p: Proxy| p@),
            hosts: self.hosts@,
            rules: self.rules@.map_values(|r: Rule| r@),
        }
    }
}

} // verus!
