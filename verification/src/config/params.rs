//! Preset parameters: a TOML table of named values.
//!
//! The library does not look inside the values (the preset's schema does that,
//! later); it only merges tables name by name, so that a
//! `--set visual.params.bass_drive=2.0` replaces one parameter and leaves the
//! others the config file set alone.

use vstd::prelude::*;

verus! {

/// A TOML value, carried through unread.
#[verifier::external_type_specification]
#[verifier::external_body]
pub struct ExTomlValue(toml::Value);

/// toml's map type; a `toml::Table` is one from `String` to `toml::Value`.
#[verifier::external_type_specification]
#[verifier::external_body]
#[verifier::reject_recursive_types(K)]
#[verifier::reject_recursive_types(V)]
pub struct ExTomlMap<K, V>(toml::map::Map<K, V>);

/// What a table holds: each name it has, with its value.
pub uninterp spec fn table_contents(t: toml::map::Map<String, toml::Value>) -> Map<Seq<char>, toml::Value>;

/// No parameters at all.
pub open spec fn no_params() -> Map<Seq<char>, toml::Value> {
    Map::empty()
}

/// `toml::map::Map::new`: a table with no entries.
#[verifier::external_body]
pub(crate) fn empty_table() -> (r: toml::Table)
    ensures
        table_contents(r) == no_params(),
{
    toml::Table::new()
}

/// `Extend::extend` on a table: every entry of `higher` is inserted in turn,
/// replacing the value of a name the table already has, so the table ends up
/// holding its old entries with `higher`'s laid over them name by name.
#[verifier::external_body]
pub(crate) fn extend_table(t: &mut toml::Table, higher: toml::Table)
    ensures
        table_contents(*final(t)) == table_contents(*old(t)).union_prefer_right(
            table_contents(higher),
        ),
{
    t.extend(higher)
}

} // verus!
