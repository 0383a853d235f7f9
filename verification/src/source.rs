//! What this library takes on trust from the `config` crate: how settings
//! that were read into a `config::Config` are looked up. Nothing in this
//! file is proved.

use crate::text::text_view;
use config::Config;
use std::collections::HashMap;
use vstd::prelude::*;

verus! {

/// `config::Config`: settings as they were read. Opaque here.
#[verifier::external_type_specification]
#[verifier::external_body]
pub struct ExConfig(Config);

/// The key paths of `settings` that hold a value other than nil: those on
/// which `Config::get`, asked for an optional value, returns one.
pub uninterp spec fn config_values(settings: Config) -> Set<Seq<char>>;

/// The settings of `settings` that are text or can be written as text
/// (numbers, booleans): for every key path on which `Config::get_string`
/// returns a string, that string.
pub uninterp spec fn config_strings(settings: Config) -> Map<Seq<char>, Seq<char>>;

/// The settings of `settings` that are port numbers or can be read as such:
/// for every key path on which `Config::get`, asked for a `u16`, returns
/// one, that number.
pub uninterp spec fn config_ports(settings: Config) -> Map<Seq<char>, u16>;

/// `settings` read as named sections of named values: what
/// `Config::try_deserialize` gives as a map from strings to maps from
/// strings to values, each value with the string that `Value::into_string`
/// makes of it, if it makes one; or `None` where it gives an error.
pub uninterp spec fn config_sections(settings: Config) -> Option<
    Map<Seq<char>, Map<Seq<char>, Option<Seq<char>>>>,
>;

/// The mapping that a list of named values stands for; of two with one name
/// the later counts.
pub open spec fn fields_map(fields: Seq<(String, Option<String>)>) -> Map<
    Seq<char>,
    Option<Seq<char>>,
>
    decreases fields.len(),
{
    if fields.len() == 0 {
        Map::empty()
    } else {
        fields_map(fields.drop_last()).insert(fields.last().0@, text_view(fields.last().1))
    }
}

/// Whether `sections` lists `all` without repeating a name: every listed
/// section is one of `all` with the same values, and every section of `all`
/// is listed.
pub open spec fn lists_sections(
    sections: Seq<(String, Vec<(String, Option<String>)>)>,
    all: Map<Seq<char>, Map<Seq<char>, Option<Seq<char>>>>,
) -> bool {
    &&& forall|i: int, j: int|
        0 <= i < j < sections.len() ==> (#[trigger] sections[i]).0@ != (#[trigger] sections[j]).0@
    &&& forall|i: int|
        0 <= i < sections.len() ==> all.contains_key((#[trigger] sections[i]).0@) && all[sections[i].0@]
            == fields_map(sections[i].1@)
    &&& forall|name: Seq<char>| #[trigger]
        all.contains_key(name) ==> exists|i: int|
            0 <= i < sections.len() && (#[trigger] sections[i]).0@ == name
}

/// `Config::get` on `key`, asked for an optional value: whether it returns
/// one. It returns none for nil, and an error where nothing is under `key`.
#[verifier::external_body]
pub(crate) fn config_holds(settings: &Config, key: &str) -> (res: bool)
    ensures
        res == config_values(*settings).contains(key@),
{
    matches!(settings.get::<Option<config::Value>>(key), Ok(Some(_)))
}

/// `Config::get_string` on `key`: the string where it returns one, `None`
/// where it returns an error (no such key, or a value that is a table or an
/// array).
#[verifier::external_body]
pub(crate) fn config_string(settings: &Config, key: &str) -> (res: Option<String>)
    ensures
        match res {
            Some(text) => config_strings(*settings).contains_key(key@) && config_strings(
                *settings,
            )[key@] == text@,
            None => !config_strings(*settings).contains_key(key@),
        },
{
    settings.get_string(key).ok()
}

/// `Config::get` on `key`, asked for a `u16`: the number where it returns
/// one, `None` where it returns an error (no such key, or a value that it
/// does not read as a number of that size).
#[verifier::external_body]
pub(crate) fn config_port(settings: &Config, key: &str) -> (res: Option<u16>)
    ensures
        match res {
            Some(port) => config_ports(*settings).contains_key(key@) && config_ports(*settings)[key@]
                == port,
            None => !config_ports(*settings).contains_key(key@),
        },
{
    settings.get::<u16>(key).ok()
}

/// `Config::try_deserialize` into a map from strings to maps from strings to
/// values, handed out as lists, each value as `Value::into_string` writes
/// it, if it does. The maps are walked in no stated order; each name comes
/// once.
#[verifier::external_body]
pub(crate) fn config_section_list(settings: Config) -> (res: Option<
    Vec<(String, Vec<(String, Option<String>)>)>,
>)
    ensures
        match res {
            Some(sections) => config_sections(settings) matches Some(all) && lists_sections(
                sections@,
                all,
            ),
            None => config_sections(settings) is None,
        },
{
    let tables: HashMap<String, HashMap<String, config::Value>> = settings.try_deserialize().ok()?;
    let texts = |fields: HashMap<String, config::Value>| {
        fields.into_iter().map(|(name, value)| (name, value.into_string().ok())).collect()
    };
    Some(tables.into_iter().map(|(name, fields)| (name, texts(fields))).collect())
}

} // verus!
