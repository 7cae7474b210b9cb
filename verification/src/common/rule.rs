//! Rules: which connections they cover and where they send them.

use vstd::prelude::*;

verus! {

/// What a rule looks at.
#[derive(Clone, Copy, Debug, PartialEq, Eq, Hash, Structural)]
pub enum RuleType {
    Domain,
    DomainSuffix,
    DomainKeyword,
    DomainRegex,
    GeoSite,
    GeoIp,
    SrcGeoIp,
    IpCidr,
    SrcIpCidr,
    SrcPort,
    DstPort,
    InPort,
    Dscp,
    ProcessName,
    ProcessPath,
    Network,
    Uid,
    Match,
    RuleSet,
    And,
    Or,
    Not,
    DomainWildcard,
    IpSuffix,
    IpAsn,
    SubRule,
    InName,
    InType,
    InUser,
}

/// The name of a type as rules are written.
pub open spec fn rule_name(t: RuleType) -> Seq<char> {
    match t {
        RuleType::Domain => "DOMAIN"@,
        RuleType::DomainSuffix => "DOMAIN-SUFFIX"@,
        RuleType::DomainKeyword => "DOMAIN-KEYWORD"@,
        RuleType::DomainRegex => "DOMAIN-REGEX"@,
        RuleType::GeoSite => "GEOSITE"@,
        RuleType::GeoIp => "GEOIP"@,
        RuleType::SrcGeoIp => "SRC-GEOIP"@,
        RuleType::IpCidr => "IP-CIDR"@,
        RuleType::SrcIpCidr => "SRC-IP-CIDR"@,
        RuleType::SrcPort => "SRC-PORT"@,
        RuleType::DstPort => "DST-PORT"@,
        RuleType::InPort => "IN-PORT"@,
        RuleType::Dscp => "DSCP"@,
        RuleType::ProcessName => "PROCESS-NAME"@,
        RuleType::ProcessPath => "PROCESS-PATH"@,
        RuleType::Network => "NETWORK"@,
        RuleType::Uid => "UID"@,
        RuleType::Match => "MATCH"@,
        RuleType::RuleSet => "RULE-SET"@,
        RuleType::And => "AND"@,
        RuleType::Or => "OR"@,
        RuleType::Not => "NOT"@,
        RuleType::DomainWildcard => "DOMAIN-WILDCARD"@,
        RuleType::IpSuffix => "IP-SUFFIX"@,
        RuleType::IpAsn => "IP-ASN"@,
        RuleType::SubRule => "SUB-RULE"@,
        RuleType::InName => "IN-NAME"@,
        RuleType::InType => "IN-TYPE"@,
        RuleType::InUser => "IN-USER"@,
    }
}

impl RuleType {
    /// The name of the type as rules are written.
    pub fn as_str(self) -> (s: &'static str)
        ensures
            s@ == rule_name(self),
    {
        match self {
            RuleType::Domain => "DOMAIN",
            RuleType::DomainSuffix => "DOMAIN-SUFFIX",
            RuleType::DomainKeyword => "DOMAIN-KEYWORD",
            RuleType::DomainRegex => "DOMAIN-REGEX",
            RuleType::GeoSite => "GEOSITE",
            RuleType::GeoIp => "GEOIP",
            RuleType::SrcGeoIp => "SRC-GEOIP",
            RuleType::IpCidr => "IP-CIDR",
            RuleType::SrcIpCidr => "SRC-IP-CIDR",
            RuleType::SrcPort => "SRC-PORT",
            RuleType::DstPort => "DST-PORT",
            RuleType::InPort => "IN-PORT",
            RuleType::Dscp => "DSCP",
            RuleType::ProcessName => "PROCESS-NAME",
            RuleType::ProcessPath => "PROCESS-PATH",
            RuleType::Network => "NETWORK",
            RuleType::Uid => "UID",
            RuleType::Match => "MATCH",
            RuleType::RuleSet => "RULE-SET",
            RuleType::And => "AND",
            RuleType::Or => "OR",
            RuleType::Not => "NOT",
            RuleType::DomainWildcard => "DOMAIN-WILDCARD",
            RuleType::IpSuffix => "IP-SUFFIX",
            RuleType::IpAsn => "IP-ASN",
            RuleType::SubRule => "SUB-RULE",
            RuleType::InName => "IN-NAME",
            RuleType::InType => "IN-TYPE",
            RuleType::InUser => "IN-USER",
        }
    }
}

/// The transport of a connection.
#[derive(Clone, Copy, Debug, PartialEq, Eq, Structural)]
pub enum Network {
    Tcp,
    Udp,
}

/// What is known of a connection when rules are tried.
#[derive(Clone, Debug)]
pub struct Metadata {
    pub network: Network,
    pub host: String,
    pub dst_port: u16,
    /// The process that made the connection.
    pub process: String,
    pub process_path: String,
    pub uid: Option<u32>,
}

/// What rules are tried with besides the connection.
#[derive(Clone, Copy, Debug, Default, PartialEq, Eq)]
pub struct RuleMatchHelper;

/// A rule.
pub trait Rule {
    /// What the rule looks at.
    spec fn kind(&self) -> RuleType;

    /// Whether the rule covers a connection.
    spec fn covers(&self, metadata: Metadata) -> bool;

    /// Where the rule sends connections.
    spec fn target(&self) -> Seq<char>;

    /// The argument of the rule.
    spec fn argument(&self) -> Seq<char>;

    fn rule_type(&self) -> (t: RuleType)
        ensures
            t == self.kind(),
    ;

    fn match_metadata(&self, metadata: &Metadata, helper: &RuleMatchHelper) -> (r: bool)
        ensures
            r == self.covers(*metadata),
    ;

    fn adapter(&self) -> (s: &str)
        ensures
            s@ == self.target(),
    ;

    fn payload(&self) -> (s: &str)
        ensures
            s@ == self.argument(),
    ;

    /// Whether the rule looks at addresses, so that names are resolved for it.
    fn should_resolve_ip(&self) -> (r: bool)
        default_ensures
            !r,
    {
        false
    }

    /// Whether the rule looks at the process that made the connection.
    fn should_find_process(&self) -> (r: bool)
        default_ensures
            !r,
    {
        false
    }

    /// Where the rule sends a connection that it covers.
    fn match_and_resolve(&self, metadata: &Metadata, helper: &RuleMatchHelper) -> (r: Option<&str>)
        default_ensures
            (match r {
                Some(s) => self.covers(*metadata) && s@ == self.target(),
                None => !self.covers(*metadata),
            }),
    {
        if self.match_metadata(metadata, helper) {
            Some(self.adapter())
        } else {
            None
        }
    }
}

} // verus!
