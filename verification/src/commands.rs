//! What the window's commands decide before they hand work on: greetings,
//! the settings answer of an instance, and the options a launch runs with.
use vstd::prelude::*;

use crate::instance::{InstanceManifest, InstanceSettings};
use crate::minecraft::launch::{strs, LaunchOptions};
use crate::text::{concat3, copy_strings, str_to_string, trim, trim_str};

verus! {

/// The greeting of the template command.
pub fn greet(name: &str) -> (r: String)
    ensures
        r@ == "Hello, "@ + name@ + "! You've been greeted from Rust!"@,
{
    concat3("Hello, ", name, "! You've been greeted from Rust!")
}

/// The settings of an instance as the window shows them: the settings, the
/// instance's folder and its memory bounds.
#[derive(Debug)]
pub struct InstanceSettingsResponse {
    pub settings: InstanceSettings,
    pub instance_location: String,
    pub minimum_ram_mb: u64,
    pub recommended_ram_mb: u64,
}

pub fn instance_settings_response(settings: InstanceSettings, instance_location: String, manifest: &InstanceManifest) -> (r: InstanceSettingsResponse)
    ensures
        r.settings == settings,
        r.instance_location == instance_location,
        r.minimum_ram_mb == manifest.minimum_ram_mb,
        r.recommended_ram_mb == manifest.recommended_ram_mb,
{
    InstanceSettingsResponse {
        settings,
        instance_location,
        minimum_ram_mb: manifest.minimum_ram_mb,
        recommended_ram_mb: manifest.recommended_ram_mb,
    }
}

/// The options a launch runs with: those asked for (the defaults where none
/// are), the instance's memory limit where none is asked, and the
/// instance's JVM arguments before those asked for.
pub fn merge_launch_options(options: Option<LaunchOptions>, settings: &InstanceSettings) -> (r: LaunchOptions)
    ensures
        match options {
            None => r.username is None && r.uuid is None && r.min_memory_mb is None
                && r.max_memory_mb == Some(settings.maximum_ram_mb) && strs(r.extra_jvm_args@)
                == strs(settings.additional_jvm_args@) && r.extra_game_args@.len() == 0,
            Some(o) => r.username == o.username && r.uuid == o.uuid && r.min_memory_mb
                == o.min_memory_mb && r.max_memory_mb == match o.max_memory_mb {
                Some(m) => Some(m),
                None => Some(settings.maximum_ram_mb),
            } && strs(r.extra_jvm_args@) == strs(settings.additional_jvm_args@) + strs(
                o.extra_jvm_args@,
            ) && r.extra_game_args == o.extra_game_args,
        },
{
    let mut options = match options {
        Some(o) => o,
        None => LaunchOptions::default(),
    };
    if options.max_memory_mb.is_none() {
        options.max_memory_mb = Some(settings.maximum_ram_mb);
    }
    let mut jvm = copy_strings(&settings.additional_jvm_args);
    let mut i: usize = 0;
    let ghost base = jvm@;
    while i < options.extra_jvm_args.len()
        invariant
            i <= options.extra_jvm_args.len(),
            base == settings.additional_jvm_args@,
            jvm@ == base + options.extra_jvm_args@.take(i as int),
        decreases options.extra_jvm_args.len() - i,
    {
        jvm.push(options.extra_jvm_args[i].clone());
        assert(jvm@ =~= base + options.extra_jvm_args@.take(i + 1));
        i = i + 1;
    }
    assert(options.extra_jvm_args@.take(options.extra_jvm_args.len() as int) =~= options.extra_jvm_args@);
    let ghost before = options;
    options.extra_jvm_args = jvm;
    proof {
        assert(strs(options.extra_jvm_args@) =~= strs(settings.additional_jvm_args@) + strs(before.extra_jvm_args@));
    }
    options
}

/// A launch asks for the stored user name when it names none but
/// whitespace.
pub fn needs_stored_username(options: &LaunchOptions) -> (r: bool)
    ensures
        r == match options.username {
            Some(u) => trim(u@).len() == 0,
            None => true,
        },
{
    match &options.username {
        Some(u) => trim_str(u.as_str()).len() == 0,
        None => true,
    }
}

} // verus!
