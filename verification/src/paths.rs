//! Where the files that were generated for a configuration lie.

use vstd::prelude::*;
use vstd::std_specs::hash::DefaultHasherAdditionalSpecFns;
use vstd::string::StringExecFns;
use std::collections::hash_map::DefaultHasher;
use crate::config::entries;
use crate::config::hash_feed;
use crate::config::OpenThreadConfig;
use crate::text::decimal;
use crate::text::u64_to_string;

verus! {

/// The paths of the files that were generated ahead for one
/// configuration and one target. Each path is given by its components
/// below the root of the crate.
pub struct PreGenerationPaths {
    pub bindings_rs_file: Vec<String>,
    pub libs_dir: Vec<String>,
    pub config_summary_file: Vec<String>,
}

/// The components by their text.
pub open spec fn components(path: Seq<String>) -> Seq<Seq<char>> {
    path.map_values(|component: String| component@)
}

/// The directory of a configuration: `pre-generated`, and below it the
/// hash of the configuration as a decimal number.
pub open spec fn config_dir(hash: u64) -> Seq<Seq<char>> {
    seq!["pre-generated"@, decimal(hash as nat)]
}

impl PreGenerationPaths {
    /// The paths for `openthread_config` and `target`: the summary of the
    /// configuration lies in the directory of the configuration, the
    /// bindings and the libraries in the directory of the target below
    /// it.
    pub fn derive(target: &str, openthread_config: &OpenThreadConfig) -> (paths: PreGenerationPaths)
        ensures
            components(paths.config_summary_file@) == config_dir(
                DefaultHasher::spec_finish(hash_feed(entries(openthread_config@))),
            ).push("config.txt"@),
            components(paths.bindings_rs_file@) == config_dir(
                DefaultHasher::spec_finish(hash_feed(entries(openthread_config@))),
            ).push(target@).push("bindings.rs"@),
            components(paths.libs_dir@) == config_dir(
                DefaultHasher::spec_finish(hash_feed(entries(openthread_config@))),
            ).push(target@).push("libs"@),
    {
        let config_hash = openthread_config.config_hash();

        let mut config_summary_file: Vec<String> = Vec::new();
        config_summary_file.push(String::from_str("pre-generated"));
        config_summary_file.push(u64_to_string(config_hash));
        config_summary_file.push(String::from_str("config.txt"));

        let mut bindings_rs_file: Vec<String> = Vec::new();
        bindings_rs_file.push(String::from_str("pre-generated"));
        bindings_rs_file.push(u64_to_string(config_hash));
        bindings_rs_file.push(String::from_str(target));
        bindings_rs_file.push(String::from_str("bindings.rs"));

        let mut libs_dir: Vec<String> = Vec::new();
        libs_dir.push(String::from_str("pre-generated"));
        libs_dir.push(u64_to_string(config_hash));
        libs_dir.push(String::from_str(target));
        libs_dir.push(String::from_str("libs"));

        proof {
            let dir = config_dir(config_hash);
            assert(components(config_summary_file@) =~= dir.push("config.txt"@));
            assert(components(bindings_rs_file@) =~= dir.push(target@).push("bindings.rs"@));
            assert(components(libs_dir@) =~= dir.push(target@).push("libs"@));
        }
        PreGenerationPaths { bindings_rs_file, libs_dir, config_summary_file }
    }
}

} // verus!
