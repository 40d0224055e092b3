use std::collections::hash_map::DefaultHasher;
use std::hash::{Hash, Hasher};

use openthread::config::{
    ConfigKey, OpenThreadConfig, OpenThreadLogLevel, OpenThreadLogOutput, OpenThreadPlatform,
};
use openthread::paths::PreGenerationPaths;
use openthread::text::u64_to_string;

fn hash_of(entries: &[(&str, &str)]) -> u64 {
    let mut hasher = DefaultHasher::new();
    for (key, value) in entries {
        format!("{key}={value}").hash(&mut hasher);
    }
    hasher.finish()
}

#[test]
fn default_config_lists_its_options_in_order() {
    let config = OpenThreadConfig::default();
    assert_eq!(
        config.iter(),
        vec![
            ("OT_APP_CLI", "OFF"),
            ("OT_APP_NCP", "OFF"),
            ("OT_APP_RCP", "OFF"),
            ("OT_BORDER_ROUTER", "OFF"),
            ("OT_BORDER_ROUTING", "OFF"),
            ("OT_ECDSA", "ON"),
            ("OT_FTD", "OFF"),
            ("OT_LOG_LEVEL", "NOTE"),
            ("OT_LOG_OUTPUT", "PLATFORM_DEFINED"),
            ("OT_MTD", "ON"),
            ("OT_PING_SENDER", "ON"),
            ("OT_PLATFORM", "external"),
            ("OT_RCP", "OFF"),
            ("OT_SETTINGS_RAM", "OFF"),
            ("OT_SLAAC", "ON"),
            ("OT_SRP_CLIENT", "ON"),
            ("OT_TCP", "OFF"),
        ]
    );
}

#[test]
fn options_are_listed_by_name() {
    let config = OpenThreadConfig::default();
    let names: Vec<&str> = config.iter().iter().map(|entry| entry.0).collect();
    let mut sorted = names.clone();
    sorted.sort();
    assert_eq!(names, sorted);
    for index in 0..17 {
        assert_eq!(ConfigKey::at(index).index(), index);
    }
}

#[test]
fn empty_config_lists_nothing() {
    let config = OpenThreadConfig::new();
    assert!(config.iter().is_empty());
    assert_eq!(config.to_string(), "");
    assert_eq!(config.config_hash(), hash_of(&[]));
}

#[test]
fn ftd_switches_mtd_off() {
    let mut config = OpenThreadConfig::new();
    config.ftd(true);
    assert_eq!(config.iter(), vec![("OT_FTD", "ON"), ("OT_MTD", "OFF")]);
    config.ftd(false);
    assert_eq!(config.iter(), vec![("OT_FTD", "OFF"), ("OT_MTD", "ON")]);
}

#[test]
fn setters_set_their_option() {
    let mut config = OpenThreadConfig::new();
    config.app_cli(true);
    config.app_ncp(false);
    config.app_rcp(true);
    config.border_router(true);
    config.border_routing(false);
    config.ecdsa(false);
    config.ping_sender(false);
    config.rcp(true);
    config.settings_ram(true);
    config.slaac(false);
    config.srp_client(false);
    config.tcp(true);
    config.log_level(OpenThreadLogLevel::Debg);
    config.log_output(OpenThreadLogOutput::DebugUart);
    config.platform(OpenThreadPlatform::External);
    assert_eq!(
        config.iter(),
        vec![
            ("OT_APP_CLI", "ON"),
            ("OT_APP_NCP", "OFF"),
            ("OT_APP_RCP", "ON"),
            ("OT_BORDER_ROUTER", "ON"),
            ("OT_BORDER_ROUTING", "OFF"),
            ("OT_ECDSA", "OFF"),
            ("OT_LOG_LEVEL", "DEBG"),
            ("OT_LOG_OUTPUT", "DEBUG_UART"),
            ("OT_PING_SENDER", "OFF"),
            ("OT_PLATFORM", "external"),
            ("OT_RCP", "ON"),
            ("OT_SETTINGS_RAM", "ON"),
            ("OT_SLAAC", "OFF"),
            ("OT_SRP_CLIENT", "OFF"),
            ("OT_TCP", "ON"),
        ]
    );
}

#[test]
fn log_levels_and_outputs_have_their_values() {
    let mut config = OpenThreadConfig::new();
    for (level, value) in [
        (OpenThreadLogLevel::Disabled, "NONE"),
        (OpenThreadLogLevel::Crit, "CRIT"),
        (OpenThreadLogLevel::Warn, "WARN"),
        (OpenThreadLogLevel::Note, "NOTE"),
        (OpenThreadLogLevel::Info, "INFO"),
        (OpenThreadLogLevel::Debg, "DEBG"),
    ] {
        config.log_level(level);
        assert_eq!(config.iter(), vec![("OT_LOG_LEVEL", value)]);
    }
    let mut config = OpenThreadConfig::new();
    for (output, value) in [
        (OpenThreadLogOutput::App, "APP"),
        (OpenThreadLogOutput::DebugUart, "DEBUG_UART"),
        (OpenThreadLogOutput::Disabled, "NONE"),
        (OpenThreadLogOutput::PlatformDefined, "PLATFORM_DEFINED"),
    ] {
        config.log_output(output);
        assert_eq!(config.iter(), vec![("OT_LOG_OUTPUT", value)]);
    }
}

#[test]
fn setting_an_option_again_replaces_its_value() {
    let mut config = OpenThreadConfig::new();
    config.set_string(ConfigKey::Platform, "first");
    config.set_string(ConfigKey::Platform, "second");
    config.set_boolean(ConfigKey::Tcp, true);
    config.set_boolean(ConfigKey::Tcp, false);
    assert_eq!(config.iter(), vec![("OT_PLATFORM", "second"), ("OT_TCP", "OFF")]);
}

#[test]
fn config_hash_is_the_hash_of_the_lines() {
    let config = OpenThreadConfig::default();
    let entries = config.iter();
    assert_eq!(config.config_hash(), hash_of(&entries));
    let mut other = OpenThreadConfig::default();
    other.ftd(true);
    assert_eq!(other.config_hash(), hash_of(&other.iter()));
    assert_ne!(other.config_hash(), config.config_hash());
}

#[test]
fn config_text_has_a_line_for_each_option() {
    let mut config = OpenThreadConfig::new();
    config.tcp(true);
    config.app_cli(false);
    assert_eq!(config.to_string(), "OT_APP_CLI = OFF\nOT_TCP = ON\n");
}

#[test]
fn paths_lie_below_the_directory_of_the_configuration() {
    let config = OpenThreadConfig::default();
    let hash = format!("{}", config.config_hash());
    let paths = PreGenerationPaths::derive("riscv32imac-unknown-none-elf", &config);
    assert_eq!(paths.config_summary_file, vec!["pre-generated", hash.as_str(), "config.txt"]);
    assert_eq!(
        paths.bindings_rs_file,
        vec!["pre-generated", hash.as_str(), "riscv32imac-unknown-none-elf", "bindings.rs"]
    );
    assert_eq!(
        paths.libs_dir,
        vec!["pre-generated", hash.as_str(), "riscv32imac-unknown-none-elf", "libs"]
    );
}

#[test]
fn numbers_render_in_decimal() {
    assert_eq!(u64_to_string(0), "0");
    assert_eq!(u64_to_string(9), "9");
    assert_eq!(u64_to_string(10), "10");
    assert_eq!(u64_to_string(1905), "1905");
    assert_eq!(u64_to_string(u64::MAX), "18446744073709551615");
}
