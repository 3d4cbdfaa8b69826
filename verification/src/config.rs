//! The settings that an instance boots with, read from the host's
//! configuration: a list of keys and values in which a later entry replaces an
//! earlier one with the same key.

use vstd::prelude::*;
use vstd::string::*;
use crate::text::{parse_usize, parsed_usize};

verus! {

/// The settings of one instance.
#[derive(Clone, Copy, Debug, PartialEq, Eq, Structural)]
pub struct Settings {
    /// True of the instance that renders the legend.
    pub is_overlay: bool,
    /// Whether leaving the base mode shows the legend.
    pub auto_show: bool,
    /// Whether returning to the base mode hides the legend.
    pub hide_in_base_mode: bool,
    /// The most lines that a legend may take.
    pub max_lines: usize,
}

/// The value of `max_lines` where the configuration gives none that can be
/// read.
pub const DEFAULT_MAX_LINES: usize = 20;

/// What a configuration says: its keys and values as texts.
pub open spec fn config_view(entries: Seq<(String, String)>) -> Seq<(Seq<char>, Seq<char>)> {
    entries.map_values(|entry: (String, String)| (entry.0@, entry.1@))
}

/// The value that a configuration gives to `key`: that of the last entry with
/// the key.
pub open spec fn config_value(entries: Seq<(Seq<char>, Seq<char>)>, key: Seq<char>) -> Option<
    Seq<char>,
>
    decreases entries.len(),
{
    if entries.len() == 0 {
        None
    } else if entries.last().0 == key {
        Some(entries.last().1)
    } else {
        config_value(entries.drop_last(), key)
    }
}

/// A switch of the configuration: on where its value is `true`, off where it
/// is `false`, and `default` where the configuration does not name it or
/// gives it any other value.
pub open spec fn flag_setting(
    entries: Seq<(Seq<char>, Seq<char>)>,
    key: Seq<char>,
    default: bool,
) -> bool {
    match config_value(entries, key) {
        Some(value) => if value == "true"@ {
            true
        } else if value == "false"@ {
            false
        } else {
            default
        },
        None => default,
    }
}

/// The number of lines that the configuration allows: the value of
/// `max_lines` where it is a number, else the default.
pub open spec fn max_lines_setting(entries: Seq<(Seq<char>, Seq<char>)>) -> usize {
    match config_value(entries, "max_lines"@) {
        Some(value) => match parsed_usize(value) {
            Some(n) => n,
            None => DEFAULT_MAX_LINES,
        },
        None => DEFAULT_MAX_LINES,
    }
}

/// The settings that a configuration gives. Nothing in a configuration makes
/// this fail: what is missing or cannot be read has its default.
pub open spec fn settings_of(entries: Seq<(Seq<char>, Seq<char>)>) -> Settings {
    Settings {
        is_overlay: flag_setting(entries, "is_overlay"@, false),
        auto_show: flag_setting(entries, "auto_show_on_mode_change"@, true),
        hide_in_base_mode: flag_setting(entries, "hide_in_base_mode"@, true),
        max_lines: max_lines_setting(entries),
    }
}

/// Looks up the value that a configuration gives to `key`.
pub fn lookup<'a>(entries: &'a Vec<(String, String)>, key: &str) -> (value: Option<&'a String>)
    ensures
        value is Some <==> config_value(config_view(entries@), key@) is Some,
        value matches Some(v) ==> config_value(config_view(entries@), key@) == Some(v@),
{
    let wanted = String::from_str(key);
    let ghost all = config_view(entries@);
    let mut i: usize = entries.len();
    assert(all.take(i as int) =~= all);
    while i > 0
        invariant
            i <= entries.len(),
            all == config_view(entries@),
            wanted@ == key@,
            config_value(all, key@) == config_value(all.take(i as int), key@),
        decreases i,
    {
        let entry = &entries[i - 1];
        proof {
            assert(all.take(i as int).last() == (entry.0@, entry.1@));
            assert(all.take(i as int).drop_last() =~= all.take(i - 1));
        }
        if entry.0 == wanted {
            return Some(&entry.1);
        }
        i = i - 1;
    }
    None
}

/// Reads a switch of the configuration.
pub fn read_flag(entries: &Vec<(String, String)>, key: &str, default: bool) -> (on: bool)
    ensures
        on == flag_setting(config_view(entries@), key@, default),
{
    match lookup(entries, key) {
        Some(value) => {
            if *value == String::from_str("true") {
                true
            } else if *value == String::from_str("false") {
                false
            } else {
                default
            }
        },
        None => default,
    }
}

/// Reads the settings of an instance from its configuration.
pub fn parse_config(entries: &Vec<(String, String)>) -> (settings: Settings)
    ensures
        settings == settings_of(config_view(entries@)),
{
    let max_lines: usize = match lookup(entries, "max_lines") {
        Some(value) => match parse_usize(value.as_str()) {
            Some(n) => n,
            None => DEFAULT_MAX_LINES,
        },
        None => DEFAULT_MAX_LINES,
    };
    Settings {
        is_overlay: read_flag(entries, "is_overlay", false),
        auto_show: read_flag(entries, "auto_show_on_mode_change", true),
        hide_in_base_mode: read_flag(entries, "hide_in_base_mode", true),
        max_lines,
    }
}

} // verus!
