use openthread::nat64::{ipv4_extract_from_ipv6_address, Nat64Error};
use openthread::netdata::{OtBorderRouterConfig, OtRoutePreference};

const ADDR: [u8; 16] = [0, 1, 2, 3, 4, 5, 6, 7, 8, 9, 10, 11, 12, 13, 14, 15];

#[test]
fn ipv4_follows_the_prefix_and_skips_octet_8() {
    assert_eq!(ipv4_extract_from_ipv6_address(32, &ADDR), Ok([4, 5, 6, 7]));
    assert_eq!(ipv4_extract_from_ipv6_address(40, &ADDR), Ok([5, 6, 7, 9]));
    assert_eq!(ipv4_extract_from_ipv6_address(48, &ADDR), Ok([6, 7, 9, 10]));
    assert_eq!(ipv4_extract_from_ipv6_address(56, &ADDR), Ok([7, 9, 10, 11]));
    assert_eq!(ipv4_extract_from_ipv6_address(64, &ADDR), Ok([9, 10, 11, 12]));
    assert_eq!(ipv4_extract_from_ipv6_address(96, &ADDR), Ok([12, 13, 14, 15]));
}

#[test]
fn well_known_prefix_holds_the_address_in_its_last_octets() {
    let addr = [0x00, 0x64, 0xff, 0x9b, 0, 0, 0, 0, 0, 0, 0, 0, 192, 0, 2, 33];
    assert_eq!(ipv4_extract_from_ipv6_address(96, &addr), Ok([192, 0, 2, 33]));
}

#[test]
fn other_prefix_lengths_are_refused() {
    for length in [0u8, 1, 31, 33, 72, 80, 88, 95, 97, 128, 255] {
        assert_eq!(
            ipv4_extract_from_ipv6_address(length, &ADDR),
            Err(Nat64Error::InvalidPrefixLength(length))
        );
    }
}

#[test]
fn nat64_error_renders_the_length() {
    assert_eq!(Nat64Error::InvalidPrefixLength(33).to_string(), "Invalid prefix length: 33");
    assert_eq!(Nat64Error::InvalidPrefixLength(0).to_string(), "Invalid prefix length: 0");
}

#[test]
fn route_preference_stands_for_its_number() {
    assert_eq!(OtRoutePreference::from_ot_int(-1), OtRoutePreference::OtRoutePreferenceLow);
    assert_eq!(OtRoutePreference::from_ot_int(0), OtRoutePreference::OtRoutePreferenceMed);
    assert_eq!(OtRoutePreference::from_ot_int(1), OtRoutePreference::OtRoutePreferenceHigh);
    assert_eq!(OtRoutePreference::from_ot_int(2), OtRoutePreference::Unkown);
    assert_eq!(OtRoutePreference::from_ot_int(-2), OtRoutePreference::Unkown);
    assert_eq!(OtRoutePreference::from_ot_int(i32::MAX), OtRoutePreference::Unkown);
    assert_eq!(OtRoutePreference::OtRoutePreferenceLow.to_ot_int(), -1);
    assert_eq!(OtRoutePreference::Unkown.to_ot_int(), 2);
}

#[test]
fn border_router_config_holds_what_the_stack_reports() {
    let config = OtBorderRouterConfig::from_ot(
        [0xfd; 16], 64, 1, true, false, true, false, true, false, true, false, true, 0xa400,
    );
    assert_eq!(
        config,
        OtBorderRouterConfig {
            prefix: ([0xfd; 16], 64),
            preference: OtRoutePreference::OtRoutePreferenceHigh,
            prefered: true,
            slaac: false,
            dhcp: true,
            configure: false,
            default_route: true,
            on_mesh: false,
            stable: true,
            nd_dns: false,
            domain_prefix: true,
            rloc16: 0xa400,
        }
    );
    let config = OtBorderRouterConfig::from_ot(
        [0; 16], 0, -7, false, true, false, true, false, true, false, true, false, 0,
    );
    assert_eq!(config.preference, OtRoutePreference::Unkown);
    assert!(config.slaac && config.configure && config.on_mesh && config.nd_dns);
    assert!(!config.prefered && !config.dhcp && !config.default_route && !config.stable);
}

#[test]
fn route_preference_has_a_text() {
    assert_eq!(
        OtRoutePreference::OtRoutePreferenceLow.to_string(),
        "OtRoutePreference: OtRoutePreferenceLow"
    );
    assert_eq!(
        OtRoutePreference::OtRoutePreferenceMed.to_string(),
        "OtRoutePreference: OtRoutePreferenceMed"
    );
    assert_eq!(
        OtRoutePreference::OtRoutePreferenceHigh.to_string(),
        "OtRoutePreference: OtRoutePreferenceHigh"
    );
    assert_eq!(OtRoutePreference::Unkown.to_string(), "OtRoutePreference: Unkown");
}

#[test]
fn border_router_config_has_a_line_for_each_field() {
    let config = OtBorderRouterConfig::from_ot(
        [0xfd; 16], 64, 1, true, false, true, false, true, false, true, false, true, 41984,
    );
    assert_eq!(
        config.to_string("fdfd::"),
        "OtBorderRouterConfig {
        prefix: (fdfd::, 64),
        preference: OtRoutePreference: OtRoutePreferenceHigh,
        preferred: true,
        slaac: false,
        dhcp: true,
        configure: false,
        default_route: true,
        on_mesh: false,
        stable: true,
        nd_dns: false,
        domain_prefix: true,
        rloc16: 41984
    }"
    );
}
