//! What the network data says of the prefixes on the mesh.

use vstd::prelude::*;
use vstd::string::StringExecFns;
use crate::text::decimal;
use crate::text::u64_to_string;

verus! {

/// How much a route is preferred.
#[derive(Debug, Copy, Clone, Eq, PartialEq, Structural)]
pub enum OtRoutePreference {
    /// Low route preference
    OtRoutePreferenceLow,
    /// Medium route preference
    OtRoutePreferenceMed,
    /// High route preference
    OtRoutePreferenceHigh,
    Unkown,
}

impl OtRoutePreference {
    /// The preference that the number `input` of the stack stands for.
    pub open spec fn spec_from_ot_int(input: i32) -> OtRoutePreference {
        if input == -1 {
            OtRoutePreference::OtRoutePreferenceLow
        } else if input == 0 {
            OtRoutePreference::OtRoutePreferenceMed
        } else if input == 1 {
            OtRoutePreference::OtRoutePreferenceHigh
        } else {
            OtRoutePreference::Unkown
        }
    }

    /// The number that stands for the preference.
    pub open spec fn spec_to_ot_int(self) -> i32 {
        match self {
            OtRoutePreference::OtRoutePreferenceLow => -1i32,
            OtRoutePreference::OtRoutePreferenceMed => 0,
            OtRoutePreference::OtRoutePreferenceHigh => 1,
            OtRoutePreference::Unkown => 2,
        }
    }

    /// The preference that the number `input` of the stack stands for.
    pub fn from_ot_int(input: i32) -> (preference: Self)
        ensures
            preference == Self::spec_from_ot_int(input),
    {
        match input {
            -1 => OtRoutePreference::OtRoutePreferenceLow,
            0 => OtRoutePreference::OtRoutePreferenceMed,
            1 => OtRoutePreference::OtRoutePreferenceHigh,
            _ => OtRoutePreference::Unkown,
        }
    }

    /// The number that stands for the preference.
    pub fn to_ot_int(self) -> (value: i32)
        ensures
            value == self.spec_to_ot_int(),
    {
        match self {
            OtRoutePreference::OtRoutePreferenceLow => -1,
            OtRoutePreference::OtRoutePreferenceMed => 0,
            OtRoutePreference::OtRoutePreferenceHigh => 1,
            OtRoutePreference::Unkown => 2,
        }
    }

    /// The name of the preference.
    pub open spec fn spec_name(self) -> Seq<char> {
        match self {
            OtRoutePreference::OtRoutePreferenceLow => "OtRoutePreferenceLow"@,
            OtRoutePreference::OtRoutePreferenceMed => "OtRoutePreferenceMed"@,
            OtRoutePreference::OtRoutePreferenceHigh => "OtRoutePreferenceHigh"@,
            OtRoutePreference::Unkown => "Unkown"@,
        }
    }

    /// The text of the preference: `OtRoutePreference: ` and its name.
    pub open spec fn spec_to_string(self) -> Seq<char> {
        "OtRoutePreference: "@ + self.spec_name()
    }

    /// The text of the preference: `OtRoutePreference: ` and its name.
    pub fn to_string(&self) -> (text: String)
        ensures
            text@ == self.spec_to_string(),
    {
        let mut text = String::from_str("OtRoutePreference: ");
        text.append(
            match self {
                OtRoutePreference::OtRoutePreferenceLow => "OtRoutePreferenceLow",
                OtRoutePreference::OtRoutePreferenceMed => "OtRoutePreferenceMed",
                OtRoutePreference::OtRoutePreferenceHigh => "OtRoutePreferenceHigh",
                OtRoutePreference::Unkown => "Unkown",
            },
        );
        text
    }

    /// The number of a preference stands for that preference.
    pub proof fn lemma_round_trip(self)
        ensures
            Self::spec_from_ot_int(self.spec_to_ot_int()) == self,
    {
    }
}

/// Represents a Border Router configuration
#[derive(Debug, Copy, Clone, Eq, PartialEq)]
pub struct OtBorderRouterConfig {
    /// The IPv6 prefix: the octets of its address, and its length in bits
    pub prefix: ([u8; 16], u8),
    /// A 2-bit signed int preference
    pub preference: OtRoutePreference,
    /// Whether prefix is preferred
    pub prefered: bool,
    /// Whether prefix can be used for address auto-configuration (SLAAC)
    pub slaac: bool,
    /// Whether border router is DHCPv6 Agent
    pub dhcp: bool,
    /// Whether DHCPv6 Agent supplying other config data
    pub configure: bool,
    /// Whether border router is a default router for prefix
    pub default_route: bool,
    /// Whether this prefix is considered on-mesh
    pub on_mesh: bool,
    /// Whether this configuration is considered Stable Network Data
    pub stable: bool,
    /// Whether this border router can supply DNS information via ND
    pub nd_dns: bool,
    /// Whether prefix is a Thread Domain Prefix (added since Thread 1.2)
    pub domain_prefix: bool,
    /// The border router's RLOC16 (value ignored on config add)
    pub rloc16: u16,
}

/// The text of a flag.
pub open spec fn bool_text(flag: bool) -> Seq<char> {
    if flag {
        "true"@
    } else {
        "false"@
    }
}

/// The text of a flag.
fn bool_str(flag: bool) -> (text: &'static str)
    ensures
        text@ == bool_text(flag),
{
    if flag {
        "true"
    } else {
        "false"
    }
}

impl OtBorderRouterConfig {
    /// The text of the configuration, with `prefix` for the text of the
    /// prefix's address: a line for each field.
    pub open spec fn spec_to_string(self, prefix: Seq<char>) -> Seq<char> {
        "OtBorderRouterConfig {\n        prefix: ("@ + prefix + ", "@ + decimal(self.prefix.1 as nat)
            + "),\n        preference: "@ + self.preference.spec_to_string()
            + ",\n        preferred: "@ + bool_text(self.prefered) + ",\n        slaac: "@
            + bool_text(self.slaac) + ",\n        dhcp: "@ + bool_text(self.dhcp)
            + ",\n        configure: "@ + bool_text(self.configure)
            + ",\n        default_route: "@ + bool_text(self.default_route)
            + ",\n        on_mesh: "@ + bool_text(self.on_mesh) + ",\n        stable: "@
            + bool_text(self.stable) + ",\n        nd_dns: "@ + bool_text(self.nd_dns)
            + ",\n        domain_prefix: "@ + bool_text(self.domain_prefix)
            + ",\n        rloc16: "@ + decimal(self.rloc16 as nat) + "\n    }"@
    }

    /// The text of the configuration: a line for each field. `prefix` is
    /// the text of the prefix's address, which the caller provides.
    pub fn to_string(&self, prefix: &str) -> (text: String)
        ensures
            text@ == self.spec_to_string(prefix@),
    {
        let mut text = String::from_str("OtBorderRouterConfig {\n        prefix: (");
        text.append(prefix);
        text.append(", ");
        text.append(u64_to_string(self.prefix.1 as u64).as_str());
        text.append("),\n        preference: ");
        text.append(self.preference.to_string().as_str());
        text.append(",\n        preferred: ");
        text.append(bool_str(self.prefered));
        text.append(",\n        slaac: ");
        text.append(bool_str(self.slaac));
        text.append(",\n        dhcp: ");
        text.append(bool_str(self.dhcp));
        text.append(",\n        configure: ");
        text.append(bool_str(self.configure));
        text.append(",\n        default_route: ");
        text.append(bool_str(self.default_route));
        text.append(",\n        on_mesh: ");
        text.append(bool_str(self.on_mesh));
        text.append(",\n        stable: ");
        text.append(bool_str(self.stable));
        text.append(",\n        nd_dns: ");
        text.append(bool_str(self.nd_dns));
        text.append(",\n        domain_prefix: ");
        text.append(bool_str(self.domain_prefix));
        text.append(",\n        rloc16: ");
        text.append(u64_to_string(self.rloc16 as u64).as_str());
        text.append("\n    }");
        text
    }

    /// The configuration that the stack reports with these values: the
    /// octets of the prefix and its length, the number of the preference,
    /// the flags and the RLOC16.
    pub fn from_ot(
        prefix: [u8; 16],
        length: u8,
        preference: i32,
        preferred: bool,
        slaac: bool,
        dhcp: bool,
        configure: bool,
        default_route: bool,
        on_mesh: bool,
        stable: bool,
        nd_dns: bool,
        domain_prefix: bool,
        rloc16: u16,
    ) -> (config: Self)
        ensures
            config == (OtBorderRouterConfig {
                prefix: (prefix, length),
                preference: OtRoutePreference::spec_from_ot_int(preference),
                prefered: preferred,
                slaac,
                dhcp,
                configure,
                default_route,
                on_mesh,
                stable,
                nd_dns,
                domain_prefix,
                rloc16,
            }),
    {
        OtBorderRouterConfig {
            prefix: (prefix, length),
            preference: OtRoutePreference::from_ot_int(preference),
            prefered: preferred,
            slaac,
            dhcp,
            configure,
            default_route,
            on_mesh,
            stable,
            nd_dns,
            domain_prefix,
            rloc16,
        }
    }
}

} // verus!
