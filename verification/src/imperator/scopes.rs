//! The scope types of Imperator: Rome: the bit of each tag, and its name.

use vstd::prelude::*;
use crate::scopes::{ScopeName, add_scope_name, names_view};

verus! {

pub const COLOR: u64 = 0x0000_0000_0000_0010;
pub const COUNTRY: u64 = 0x0000_0000_0000_0020;
pub const CHARACTER: u64 = 0x0000_0000_0000_0040;
pub const CULTURE: u64 = 0x0000_0000_0000_0080;
pub const PROVINCE: u64 = 0x0000_0000_0000_0100;
pub const POP: u64 = 0x0000_0000_0000_0200;
pub const PARTY: u64 = 0x0000_0000_0000_0400;
pub const RELIGION: u64 = 0x0000_0000_0000_0800;
pub const STATE: u64 = 0x0000_0000_0000_1000;
pub const WAR: u64 = 0x0000_0000_0000_2000;

pub const AREA: u64 = 0x0000_0000_0001_0000;
pub const COUNTRY_CULTURE: u64 = 0x0000_0000_0002_0000;
pub const CULTURE_GROUP: u64 = 0x0000_0000_0004_0000;
pub const DEITY: u64 = 0x0000_0000_0008_0000;
pub const FAMILY: u64 = 0x0000_0000_0010_0000;
pub const GOVERNORSHIP: u64 = 0x0000_0000_0020_0000;
pub const GREAT_WORK: u64 = 0x0000_0000_0040_0000;
pub const JOB: u64 = 0x0000_0000_0080_0000;
pub const LEGION: u64 = 0x0000_0000_0100_0000;
pub const LEVY_TEMPLATE: u64 = 0x0000_0000_0200_0000;
pub const REGION: u64 = 0x0000_0000_0400_0000;
pub const SIEGE: u64 = 0x0000_0000_0800_0000;
pub const SUB_UNIT: u64 = 0x0000_0000_1000_0000;
pub const TREASURE: u64 = 0x0000_0000_2000_0000;
pub const UNIT: u64 = 0x0000_0000_4000_0000;

/// The names of the scope types of Imperator: Rome as they are written in script,
/// each with its tag.
pub open spec fn spec_scope_names() -> Seq<(Seq<char>, u64)> {
    seq![
        ("color"@, COLOR),
        ("country"@, COUNTRY),
        ("character"@, CHARACTER),
        ("culture"@, CULTURE),
        ("province"@, PROVINCE),
        ("pop"@, POP),
        ("party"@, PARTY),
        ("religion"@, RELIGION),
        ("state"@, STATE),
        ("war"@, WAR),
        ("area"@, AREA),
        ("country_culture"@, COUNTRY_CULTURE),
        ("culture_group"@, CULTURE_GROUP),
        ("deity"@, DEITY),
        ("family"@, FAMILY),
        ("governorship"@, GOVERNORSHIP),
        ("great_work"@, GREAT_WORK),
        ("job"@, JOB),
        ("legion"@, LEGION),
        ("levy_template"@, LEVY_TEMPLATE),
        ("region"@, REGION),
        ("siege"@, SIEGE),
        ("sub_unit"@, SUB_UNIT),
        ("treasure"@, TREASURE),
        ("unit"@, UNIT),
    ]
}

/// The names of the scope types of Imperator: Rome, for a table of the game.
pub fn scope_names() -> (r: Vec<ScopeName>)
    ensures
        names_view(r@) == spec_scope_names(),
{
    let mut r: Vec<ScopeName> = Vec::new();
    assert(names_view(r@) =~= Seq::<(Seq<char>, u64)>::empty());
    add_scope_name(&mut r, "color", COLOR);
    add_scope_name(&mut r, "country", COUNTRY);
    add_scope_name(&mut r, "character", CHARACTER);
    add_scope_name(&mut r, "culture", CULTURE);
    add_scope_name(&mut r, "province", PROVINCE);
    add_scope_name(&mut r, "pop", POP);
    add_scope_name(&mut r, "party", PARTY);
    add_scope_name(&mut r, "religion", RELIGION);
    add_scope_name(&mut r, "state", STATE);
    add_scope_name(&mut r, "war", WAR);
    add_scope_name(&mut r, "area", AREA);
    add_scope_name(&mut r, "country_culture", COUNTRY_CULTURE);
    add_scope_name(&mut r, "culture_group", CULTURE_GROUP);
    add_scope_name(&mut r, "deity", DEITY);
    add_scope_name(&mut r, "family", FAMILY);
    add_scope_name(&mut r, "governorship", GOVERNORSHIP);
    add_scope_name(&mut r, "great_work", GREAT_WORK);
    add_scope_name(&mut r, "job", JOB);
    add_scope_name(&mut r, "legion", LEGION);
    add_scope_name(&mut r, "levy_template", LEVY_TEMPLATE);
    add_scope_name(&mut r, "region", REGION);
    add_scope_name(&mut r, "siege", SIEGE);
    add_scope_name(&mut r, "sub_unit", SUB_UNIT);
    add_scope_name(&mut r, "treasure", TREASURE);
    add_scope_name(&mut r, "unit", UNIT);
    r
}

} // verus!
