//! The options with which the stack is built.

use vstd::prelude::*;
use vstd::std_specs::hash::DefaultHasherAdditionalSpecFns;
use vstd::string::StringExecFns;
use std::hash::Hasher;
use std::collections::hash_map::DefaultHasher;
use std::collections::BTreeMap;

verus! {

/// The number of options.
pub const CONFIG_KEYS: usize = 17;

/// An option of the build, in the order of the options' names.
#[derive(Debug, Copy, Clone, Eq, PartialEq, Hash, Structural)]
pub enum ConfigKey {
    AppCli,
    AppNcp,
    AppRcp,
    BorderRouter,
    BorderRouting,
    Ecdsa,
    Ftd,
    LogLevel,
    LogOutput,
    Mtd,
    PingSender,
    Platform,
    Rcp,
    SettingsRam,
    Slaac,
    SrpClient,
    Tcp,
}

impl ConfigKey {
    /// The place of the option among all options.
    pub open spec fn spec_index(self) -> int {
        match self {
            ConfigKey::AppCli => 0,
            ConfigKey::AppNcp => 1,
            ConfigKey::AppRcp => 2,
            ConfigKey::BorderRouter => 3,
            ConfigKey::BorderRouting => 4,
            ConfigKey::Ecdsa => 5,
            ConfigKey::Ftd => 6,
            ConfigKey::LogLevel => 7,
            ConfigKey::LogOutput => 8,
            ConfigKey::Mtd => 9,
            ConfigKey::PingSender => 10,
            ConfigKey::Platform => 11,
            ConfigKey::Rcp => 12,
            ConfigKey::SettingsRam => 13,
            ConfigKey::Slaac => 14,
            ConfigKey::SrpClient => 15,
            ConfigKey::Tcp => 16,
        }
    }

    /// The option at place `index`.
    pub open spec fn spec_at(index: int) -> ConfigKey {
        if index == 0 {
            ConfigKey::AppCli
        } else if index == 1 {
            ConfigKey::AppNcp
        } else if index == 2 {
            ConfigKey::AppRcp
        } else if index == 3 {
            ConfigKey::BorderRouter
        } else if index == 4 {
            ConfigKey::BorderRouting
        } else if index == 5 {
            ConfigKey::Ecdsa
        } else if index == 6 {
            ConfigKey::Ftd
        } else if index == 7 {
            ConfigKey::LogLevel
        } else if index == 8 {
            ConfigKey::LogOutput
        } else if index == 9 {
            ConfigKey::Mtd
        } else if index == 10 {
            ConfigKey::PingSender
        } else if index == 11 {
            ConfigKey::Platform
        } else if index == 12 {
            ConfigKey::Rcp
        } else if index == 13 {
            ConfigKey::SettingsRam
        } else if index == 14 {
            ConfigKey::Slaac
        } else if index == 15 {
            ConfigKey::SrpClient
        } else {
            ConfigKey::Tcp
        }
    }

    /// The name of the option.
    pub open spec fn spec_name(self) -> Seq<char> {
        match self {
            ConfigKey::AppCli => "OT_APP_CLI"@,
            ConfigKey::AppNcp => "OT_APP_NCP"@,
            ConfigKey::AppRcp => "OT_APP_RCP"@,
            ConfigKey::BorderRouter => "OT_BORDER_ROUTER"@,
            ConfigKey::BorderRouting => "OT_BORDER_ROUTING"@,
            ConfigKey::Ecdsa => "OT_ECDSA"@,
            ConfigKey::Ftd => "OT_FTD"@,
            ConfigKey::LogLevel => "OT_LOG_LEVEL"@,
            ConfigKey::LogOutput => "OT_LOG_OUTPUT"@,
            ConfigKey::Mtd => "OT_MTD"@,
            ConfigKey::PingSender => "OT_PING_SENDER"@,
            ConfigKey::Platform => "OT_PLATFORM"@,
            ConfigKey::Rcp => "OT_RCP"@,
            ConfigKey::SettingsRam => "OT_SETTINGS_RAM"@,
            ConfigKey::Slaac => "OT_SLAAC"@,
            ConfigKey::SrpClient => "OT_SRP_CLIENT"@,
            ConfigKey::Tcp => "OT_TCP"@,
        }
    }

    /// The place of the option among all options.
    pub fn index(self) -> (index: usize)
        ensures
            index == self.spec_index(),
            index < CONFIG_KEYS,
    {
        match self {
            ConfigKey::AppCli => 0,
            ConfigKey::AppNcp => 1,
            ConfigKey::AppRcp => 2,
            ConfigKey::BorderRouter => 3,
            ConfigKey::BorderRouting => 4,
            ConfigKey::Ecdsa => 5,
            ConfigKey::Ftd => 6,
            ConfigKey::LogLevel => 7,
            ConfigKey::LogOutput => 8,
            ConfigKey::Mtd => 9,
            ConfigKey::PingSender => 10,
            ConfigKey::Platform => 11,
            ConfigKey::Rcp => 12,
            ConfigKey::SettingsRam => 13,
            ConfigKey::Slaac => 14,
            ConfigKey::SrpClient => 15,
            ConfigKey::Tcp => 16,
        }
    }

    /// The option at place `index`.
    pub fn at(index: usize) -> (key: ConfigKey)
        requires
            index < CONFIG_KEYS,
        ensures
            key == Self::spec_at(index as int),
            key.spec_index() == index,
    {
        if index == 0 {
            ConfigKey::AppCli
        } else if index == 1 {
            ConfigKey::AppNcp
        } else if index == 2 {
            ConfigKey::AppRcp
        } else if index == 3 {
            ConfigKey::BorderRouter
        } else if index == 4 {
            ConfigKey::BorderRouting
        } else if index == 5 {
            ConfigKey::Ecdsa
        } else if index == 6 {
            ConfigKey::Ftd
        } else if index == 7 {
            ConfigKey::LogLevel
        } else if index == 8 {
            ConfigKey::LogOutput
        } else if index == 9 {
            ConfigKey::Mtd
        } else if index == 10 {
            ConfigKey::PingSender
        } else if index == 11 {
            ConfigKey::Platform
        } else if index == 12 {
            ConfigKey::Rcp
        } else if index == 13 {
            ConfigKey::SettingsRam
        } else if index == 14 {
            ConfigKey::Slaac
        } else if index == 15 {
            ConfigKey::SrpClient
        } else {
            ConfigKey::Tcp
        }
    }

    /// The name of the option.
    pub fn name(self) -> (name: &'static str)
        ensures
            name@ == self.spec_name(),
    {
        match self {
            ConfigKey::AppCli => "OT_APP_CLI",
            ConfigKey::AppNcp => "OT_APP_NCP",
            ConfigKey::AppRcp => "OT_APP_RCP",
            ConfigKey::BorderRouter => "OT_BORDER_ROUTER",
            ConfigKey::BorderRouting => "OT_BORDER_ROUTING",
            ConfigKey::Ecdsa => "OT_ECDSA",
            ConfigKey::Ftd => "OT_FTD",
            ConfigKey::LogLevel => "OT_LOG_LEVEL",
            ConfigKey::LogOutput => "OT_LOG_OUTPUT",
            ConfigKey::Mtd => "OT_MTD",
            ConfigKey::PingSender => "OT_PING_SENDER",
            ConfigKey::Platform => "OT_PLATFORM",
            ConfigKey::Rcp => "OT_RCP",
            ConfigKey::SettingsRam => "OT_SETTINGS_RAM",
            ConfigKey::Slaac => "OT_SLAAC",
            ConfigKey::SrpClient => "OT_SRP_CLIENT",
            ConfigKey::Tcp => "OT_TCP",
        }
    }

    /// Every option has its place, and every place its option.
    pub proof fn lemma_places(self)
        ensures
            0 <= self.spec_index() < CONFIG_KEYS,
            Self::spec_at(self.spec_index()) == self,
    {
    }
}

/// How much the stack logs.
#[derive(Debug, Copy, Clone, Eq, PartialEq, Hash, Structural)]
pub enum OpenThreadLogLevel {
    Disabled,
    Crit,
    Warn,
    Note,
    Info,
    Debg,
}

/// Where the log of the stack goes.
#[derive(Debug, Copy, Clone, Eq, PartialEq, Hash, Structural)]
pub enum OpenThreadLogOutput {
    App,
    DebugUart,
    Disabled,
    PlatformDefined,
}

/// The platform that the stack is built for.
#[derive(Debug, Copy, Clone, Eq, PartialEq, Hash, Structural)]
pub enum OpenThreadPlatform {
    External,
}

impl OpenThreadLogLevel {
    /// The value that stands for the level.
    pub open spec fn spec_value(self) -> Seq<char> {
        match self {
            OpenThreadLogLevel::Disabled => "NONE"@,
            OpenThreadLogLevel::Crit => "CRIT"@,
            OpenThreadLogLevel::Warn => "WARN"@,
            OpenThreadLogLevel::Note => "NOTE"@,
            OpenThreadLogLevel::Info => "INFO"@,
            OpenThreadLogLevel::Debg => "DEBG"@,
        }
    }
}

impl OpenThreadLogOutput {
    /// The value that stands for the output.
    pub open spec fn spec_value(self) -> Seq<char> {
        match self {
            OpenThreadLogOutput::App => "APP"@,
            OpenThreadLogOutput::DebugUart => "DEBUG_UART"@,
            OpenThreadLogOutput::Disabled => "NONE"@,
            OpenThreadLogOutput::PlatformDefined => "PLATFORM_DEFINED"@,
        }
    }
}

impl OpenThreadPlatform {
    /// The value that stands for the platform.
    pub open spec fn spec_value(self) -> Seq<char> {
        match self {
            OpenThreadPlatform::External => "external"@,
        }
    }
}

/// The value of a switch.
pub open spec fn on_off(value: bool) -> Seq<char> {
    if value {
        "ON"@
    } else {
        "OFF"@
    }
}

/// The options that are set, as pairs of name and value in the order of
/// the options, as far as the options below place `upto` go.
pub open spec fn entries_upto(values: Map<ConfigKey, Seq<char>>, upto: int) -> Seq<
    (Seq<char>, Seq<char>),
>
    decreases upto,
{
    if upto <= 0 {
        Seq::empty()
    } else {
        let key = ConfigKey::spec_at(upto - 1);
        let before = entries_upto(values, upto - 1);
        if values.dom().contains(key) {
            before.push((key.spec_name(), values[key]))
        } else {
            before
        }
    }
}

/// All options that are set, as pairs of name and value in the order of
/// the options.
pub open spec fn entries(values: Map<ConfigKey, Seq<char>>) -> Seq<(Seq<char>, Seq<char>)> {
    entries_upto(values, CONFIG_KEYS as int)
}

/// The line that stands for an option in the hash of a configuration.
pub open spec fn hash_line(entry: (Seq<char>, Seq<char>)) -> Seq<char> {
    entry.0 + "="@ + entry.1
}

/// What the hasher is fed for the options in `list`: of each its line and
/// the byte that closes a string.
pub open spec fn hash_feed(list: Seq<(Seq<char>, Seq<char>)>) -> Seq<Seq<u8>>
    decreases list.len(),
{
    if list.len() == 0 {
        Seq::empty()
    } else {
        hash_feed(list.drop_last()).push(vstd::utf8::encode_utf8(hash_line(list.last()))).push(
            seq![0xffu8],
        )
    }
}

/// The text of the options in `list`: a line for each.
pub open spec fn summary(list: Seq<(Seq<char>, Seq<char>)>) -> Seq<char>
    decreases list.len(),
{
    if list.len() == 0 {
        Seq::empty()
    } else {
        summary(list.drop_last()) + list.last().0 + " = "@ + list.last().1 + "\n"@
    }
}

/// The configuration that `default` makes.
pub open spec fn default_values() -> Map<ConfigKey, Seq<char>> {
    Map::<ConfigKey, Seq<char>>::empty().insert(
        ConfigKey::LogLevel,
        OpenThreadLogLevel::Note.spec_value(),
    ).insert(ConfigKey::Mtd, on_off(true)).insert(ConfigKey::Ftd, on_off(false)).insert(
        ConfigKey::Rcp,
        on_off(false),
    ).insert(ConfigKey::Tcp, on_off(false)).insert(ConfigKey::AppCli, on_off(false)).insert(
        ConfigKey::AppNcp,
        on_off(false),
    ).insert(ConfigKey::AppRcp, on_off(false)).insert(ConfigKey::BorderRouter, on_off(false)).insert(
        ConfigKey::BorderRouting,
        on_off(false),
    ).insert(ConfigKey::SrpClient, on_off(true)).insert(ConfigKey::Slaac, on_off(true)).insert(
        ConfigKey::Ecdsa,
        on_off(true),
    ).insert(ConfigKey::PingSender, on_off(true)).insert(
        ConfigKey::LogOutput,
        OpenThreadLogOutput::PlatformDefined.spec_value(),
    ).insert(ConfigKey::Platform, OpenThreadPlatform::External.spec_value()).insert(
        ConfigKey::SettingsRam,
        on_off(false),
    )
}

/// The options with which the stack is built: each option that is set,
/// with its value.
#[derive(Clone)]
pub struct OpenThreadConfig {
    /// The value of each option that is set, by the option's place.
    config_values: BTreeMap<usize, &'static str>,
}

impl View for OpenThreadConfig {
    type V = Map<ConfigKey, Seq<char>>;

    closed spec fn view(&self) -> Map<ConfigKey, Seq<char>> {
        Map::new(
            |key: ConfigKey| self.config_values@.contains_key(key.spec_index() as usize),
            |key: ConfigKey| self.config_values@[key.spec_index() as usize]@,
        )
    }
}

impl OpenThreadConfig {
    /// A configuration in which no option is set.
    pub fn new() -> (config: Self)
        ensures
            config@ == Map::<ConfigKey, Seq<char>>::empty(),
    {
        let config = OpenThreadConfig { config_values: BTreeMap::new() };
        assert(config@ =~= Map::<ConfigKey, Seq<char>>::empty());
        config
    }

    pub fn app_cli(&mut self, enable: bool)
        ensures
            final(self)@ == old(self)@.insert(ConfigKey::AppCli, on_off(enable)),
    {
        self.set_boolean(ConfigKey::AppCli, enable);
    }

    pub fn app_ncp(&mut self, enable: bool)
        ensures
            final(self)@ == old(self)@.insert(ConfigKey::AppNcp, on_off(enable)),
    {
        self.set_boolean(ConfigKey::AppNcp, enable);
    }

    pub fn app_rcp(&mut self, enable: bool)
        ensures
            final(self)@ == old(self)@.insert(ConfigKey::AppRcp, on_off(enable)),
    {
        self.set_boolean(ConfigKey::AppRcp, enable);
    }

    pub fn border_router(&mut self, enable: bool)
        ensures
            final(self)@ == old(self)@.insert(ConfigKey::BorderRouter, on_off(enable)),
    {
        self.set_boolean(ConfigKey::BorderRouter, enable);
    }

    pub fn border_routing(&mut self, enable: bool)
        ensures
            final(self)@ == old(self)@.insert(ConfigKey::BorderRouting, on_off(enable)),
    {
        self.set_boolean(ConfigKey::BorderRouting, enable);
    }

    pub fn ecdsa(&mut self, enable: bool)
        ensures
            final(self)@ == old(self)@.insert(ConfigKey::Ecdsa, on_off(enable)),
    {
        self.set_boolean(ConfigKey::Ecdsa, enable);
    }

    /// Builds a full Thread device, or a minimal one: exactly one of the
    /// two options is on.
    pub fn ftd(&mut self, enable_ftd: bool)
        ensures
            final(self)@ == old(self)@.insert(ConfigKey::Mtd, on_off(!enable_ftd)).insert(
                ConfigKey::Ftd,
                on_off(enable_ftd),
            ),
    {
        self.set_boolean(ConfigKey::Mtd, !enable_ftd);
        self.set_boolean(ConfigKey::Ftd, enable_ftd);
    }

    pub fn log_level(&mut self, log_level: OpenThreadLogLevel)
        ensures
            final(self)@ == old(self)@.insert(ConfigKey::LogLevel, log_level.spec_value()),
    {
        self.set_string(
            ConfigKey::LogLevel,
            match log_level {
                OpenThreadLogLevel::Disabled => "NONE",
                OpenThreadLogLevel::Crit => "CRIT",
                OpenThreadLogLevel::Warn => "WARN",
                OpenThreadLogLevel::Note => "NOTE",
                OpenThreadLogLevel::Info => "INFO",
                OpenThreadLogLevel::Debg => "DEBG",
            },
        );
    }

    pub fn log_output(&mut self, log_output: OpenThreadLogOutput)
        ensures
            final(self)@ == old(self)@.insert(ConfigKey::LogOutput, log_output.spec_value()),
    {
        self.set_string(
            ConfigKey::LogOutput,
            match log_output {
                OpenThreadLogOutput::App => "APP",
                OpenThreadLogOutput::DebugUart => "DEBUG_UART",
                OpenThreadLogOutput::Disabled => "NONE",
                OpenThreadLogOutput::PlatformDefined => "PLATFORM_DEFINED",
            },
        );
    }

    pub fn ping_sender(&mut self, enable: bool)
        ensures
            final(self)@ == old(self)@.insert(ConfigKey::PingSender, on_off(enable)),
    {
        self.set_boolean(ConfigKey::PingSender, enable);
    }

    pub fn platform(&mut self, platform: OpenThreadPlatform)
        ensures
            final(self)@ == old(self)@.insert(ConfigKey::Platform, platform.spec_value()),
    {
        self.set_string(
            ConfigKey::Platform,
            match platform {
                OpenThreadPlatform::External => "external",
            },
        );
    }

    pub fn rcp(&mut self, enable: bool)
        ensures
            final(self)@ == old(self)@.insert(ConfigKey::Rcp, on_off(enable)),
    {
        self.set_boolean(ConfigKey::Rcp, enable);
    }

    pub fn settings_ram(&mut self, enable: bool)
        ensures
            final(self)@ == old(self)@.insert(ConfigKey::SettingsRam, on_off(enable)),
    {
        self.set_boolean(ConfigKey::SettingsRam, enable);
    }

    pub fn slaac(&mut self, enable: bool)
        ensures
            final(self)@ == old(self)@.insert(ConfigKey::Slaac, on_off(enable)),
    {
        self.set_boolean(ConfigKey::Slaac, enable);
    }

    pub fn srp_client(&mut self, enable: bool)
        ensures
            final(self)@ == old(self)@.insert(ConfigKey::SrpClient, on_off(enable)),
    {
        self.set_boolean(ConfigKey::SrpClient, enable);
    }

    pub fn tcp(&mut self, enable: bool)
        ensures
            final(self)@ == old(self)@.insert(ConfigKey::Tcp, on_off(enable)),
    {
        self.set_boolean(ConfigKey::Tcp, enable);
    }

    /// Sets the switch `key`.
    pub fn set_boolean(&mut self, key: ConfigKey, value: bool)
        ensures
            final(self)@ == old(self)@.insert(key, on_off(value)),
    {
        self.set_string(
            key,
            if value {
                "ON"
            } else {
                "OFF"
            },
        );
    }

    /// Sets the option `key` to `value`, in place of the value that it
    /// had.
    pub fn set_string(&mut self, key: ConfigKey, value: &'static str)
        ensures
            final(self)@ == old(self)@.insert(key, value@),
    {
        let index = key.index();
        self.config_values.insert(index, value);
        proof {
            assert forall|other: ConfigKey| other != key implies other.spec_index()
                != key.spec_index() by {
                other.lemma_places();
                key.lemma_places();
            }
            assert(self@ =~= old(self)@.insert(key, value@));
        }
    }

    /// The options that are set, each with its name and its value, in the
    /// order of the options.
    pub fn iter(&self) -> (list: Vec<(&'static str, &'static str)>)
        ensures
            list@.map_values(|e: (&'static str, &'static str)| (e.0@, e.1@)) == entries(self@),
    {
        let mut list: Vec<(&'static str, &'static str)> = Vec::new();
        let mut index: usize = 0;
        while index < CONFIG_KEYS
            invariant
                index <= CONFIG_KEYS,
                list@.map_values(|e: (&'static str, &'static str)| (e.0@, e.1@)) == entries_upto(
                    self@,
                    index as int,
                ),
            decreases CONFIG_KEYS - index,
        {
            let key = ConfigKey::at(index);
            let ghost before = list@;
            match self.config_values.get(&index) {
                Some(value) => {
                    let value: &'static str = *value;
                    list.push((key.name(), value));
                    assert(list@.map_values(|e: (&'static str, &'static str)| (e.0@, e.1@))
                        =~= before.map_values(|e: (&'static str, &'static str)| (e.0@, e.1@)).push(
                        (key.spec_name(), value@),
                    ));
                },
                None => {},
            }
            index += 1;
        }
        list
    }

    /// The hash of the configuration: that of the lines `name=value` of
    /// the options that are set, in the order of the options, each hashed
    /// as a string.
    pub fn config_hash(&self) -> (hash: u64)
        ensures
            hash == DefaultHasher::spec_finish(hash_feed(entries(self@))),
    {
        let list = self.iter();
        let ghost all = entries(self@);
        let mut hasher = DefaultHasher::new();
        let mut index: usize = 0;
        while index < list.len()
            invariant
                index <= list@.len(),
                list@.map_values(|e: (&'static str, &'static str)| (e.0@, e.1@)) == all,
                hasher@ == hash_feed(all.take(index as int)),
            decreases list@.len() - index,
        {
            let (key, value) = list[index];
            let mut line = String::from_str(key);
            line.append("=");
            line.append(value);
            let closing: [u8; 1] = [0xff];
            hasher.write(line.as_str().as_bytes());
            hasher.write(closing.as_slice());
            proof {
                assert(all[index as int] == (key@, value@));
                assert(all.take(index + 1).drop_last() =~= all.take(index as int));
                assert(all.take(index + 1).last() == all[index as int]);
                assert(closing@ =~= seq![0xffu8]);
            }
            index += 1;
        }
        proof {
            assert(all.take(all.len() as int) =~= all);
        }
        hasher.finish()
    }

    /// The text of the configuration: a line `name = value` for each
    /// option that is set, in the order of the options.
    pub fn to_string(&self) -> (text: String)
        ensures
            text@ == summary(entries(self@)),
    {
        let list = self.iter();
        let ghost all = entries(self@);
        let mut text = String::new();
        let mut index: usize = 0;
        while index < list.len()
            invariant
                index <= list@.len(),
                list@.map_values(|e: (&'static str, &'static str)| (e.0@, e.1@)) == all,
                text@ == summary(all.take(index as int)),
            decreases list@.len() - index,
        {
            let (key, value) = list[index];
            text.append(key);
            text.append(" = ");
            text.append(value);
            text.append("\n");
            proof {
                assert(all[index as int] == (key@, value@));
                assert(all.take(index + 1).drop_last() =~= all.take(index as int));
                assert(all.take(index + 1).last() == all[index as int]);
            }
            index += 1;
        }
        proof {
            assert(all.take(all.len() as int) =~= all);
        }
        text
    }
}

impl Default for OpenThreadConfig {
    fn default() -> (config: Self)
        ensures
            config@ == default_values(),
    {
        let mut config = OpenThreadConfig::new();
        config.log_level(OpenThreadLogLevel::Note);
        config.ftd(false);
        config.rcp(false);
        config.tcp(false);
        config.app_cli(false);
        config.app_ncp(false);
        config.app_rcp(false);
        config.border_router(false);
        config.border_routing(false);
        config.srp_client(true);
        config.slaac(true);
        config.ecdsa(true);
        config.ping_sender(true);
        config.log_output(OpenThreadLogOutput::PlatformDefined);
        config.platform(OpenThreadPlatform::External);
        config.settings_ram(false);
        config
    }
}

} // verus!
