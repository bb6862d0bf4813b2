//! The scope types of Crusader Kings 3: the bit of each tag, and its name.

use vstd::prelude::*;
use crate::scopes::{ScopeName, add_scope_name, names_view};

verus! {

pub const CHARACTER: u64 = 0x0000_0000_0000_0040;
pub const CULTURE: u64 = 0x0000_0000_0000_0080;
pub const PROVINCE: u64 = 0x0000_0000_0000_0100;
pub const RELIGION: u64 = 0x0000_0000_0000_0800;
pub const WAR: u64 = 0x0000_0000_0000_2000;

pub const ACCOLADE: u64 = 0x0000_0000_0001_0000;
pub const ACCOLADE_TYPE: u64 = 0x0000_0000_0002_0000;
pub const ACTIVITY: u64 = 0x0000_0000_0004_0000;
pub const ACTIVITY_TYPE: u64 = 0x0000_0000_0008_0000;
pub const ARMY: u64 = 0x0000_0000_0010_0000;
pub const ARTIFACT: u64 = 0x0000_0000_0020_0000;
pub const CASUS_BELLI: u64 = 0x0000_0000_0040_0000;
pub const CHARACTER_MEMORY: u64 = 0x0000_0000_0080_0000;
pub const COMBAT: u64 = 0x0000_0000_0100_0000;
pub const COMBAT_SIDE: u64 = 0x0000_0000_0200_0000;
pub const COUNCIL_TASK: u64 = 0x0000_0000_0400_0000;
pub const CULTURE_PILLAR: u64 = 0x0000_0000_0800_0000;
pub const CULTURE_TRADITION: u64 = 0x0000_0000_1000_0000;
pub const DECISION: u64 = 0x0000_0000_2000_0000;
pub const DOCTRINE: u64 = 0x0000_0000_4000_0000;
pub const DYNASTY: u64 = 0x0000_0000_8000_0000;
pub const DYNASTY_HOUSE: u64 = 0x0000_0001_0000_0000;
pub const FACTION: u64 = 0x0000_0002_0000_0000;
pub const FAITH: u64 = 0x0000_0004_0000_0000;
pub const GOVERNMENT_TYPE: u64 = 0x0000_0008_0000_0000;
pub const GREAT_HOLY_WAR: u64 = 0x0000_0010_0000_0000;
pub const HOLY_ORDER: u64 = 0x0000_0020_0000_0000;
pub const INSPIRATION: u64 = 0x0000_0040_0000_0000;
pub const LANDED_TITLE: u64 = 0x0000_0080_0000_0000;
pub const MERCENARY_COMPANY: u64 = 0x0000_0100_0000_0000;
pub const SCHEME: u64 = 0x0000_0200_0000_0000;
pub const SECRET: u64 = 0x0000_0400_0000_0000;
pub const STORY_CYCLE: u64 = 0x0000_0800_0000_0000;
pub const STRUGGLE: u64 = 0x0000_1000_0000_0000;
pub const TITLE_AND_VASSAL_CHANGE: u64 = 0x0000_2000_0000_0000;
pub const TRAIT: u64 = 0x0000_4000_0000_0000;
pub const TRAVEL_PLAN: u64 = 0x0000_8000_0000_0000;
pub const VASSAL_CONTRACT: u64 = 0x0001_0000_0000_0000;
pub const VASSAL_OBLIGATION_LEVEL: u64 = 0x0002_0000_0000_0000;
pub const HOLDING_TYPE: u64 = 0x0004_0000_0000_0000;
pub const TAX_SLOT: u64 = 0x0008_0000_0000_0000;

/// The names of the scope types of Crusader Kings 3 as they are written in script,
/// each with its tag.
pub open spec fn spec_scope_names() -> Seq<(Seq<char>, u64)> {
    seq![
        ("character"@, CHARACTER),
        ("culture"@, CULTURE),
        ("province"@, PROVINCE),
        ("religion"@, RELIGION),
        ("war"@, WAR),
        ("accolade"@, ACCOLADE),
        ("accolade_type"@, ACCOLADE_TYPE),
        ("activity"@, ACTIVITY),
        ("activity_type"@, ACTIVITY_TYPE),
        ("army"@, ARMY),
        ("artifact"@, ARTIFACT),
        ("casus_belli"@, CASUS_BELLI),
        ("character_memory"@, CHARACTER_MEMORY),
        ("combat"@, COMBAT),
        ("combat_side"@, COMBAT_SIDE),
        ("council_task"@, COUNCIL_TASK),
        ("culture_pillar"@, CULTURE_PILLAR),
        ("culture_tradition"@, CULTURE_TRADITION),
        ("decision"@, DECISION),
        ("doctrine"@, DOCTRINE),
        ("dynasty"@, DYNASTY),
        ("dynasty_house"@, DYNASTY_HOUSE),
        ("faction"@, FACTION),
        ("faith"@, FAITH),
        ("government_type"@, GOVERNMENT_TYPE),
        ("great_holy_war"@, GREAT_HOLY_WAR),
        ("holy_order"@, HOLY_ORDER),
        ("inspiration"@, INSPIRATION),
        ("landed_title"@, LANDED_TITLE),
        ("mercenary_company"@, MERCENARY_COMPANY),
        ("scheme"@, SCHEME),
        ("secret"@, SECRET),
        ("story_cycle"@, STORY_CYCLE),
        ("struggle"@, STRUGGLE),
        ("title_and_vassal_change"@, TITLE_AND_VASSAL_CHANGE),
        ("trait"@, TRAIT),
        ("travel_plan"@, TRAVEL_PLAN),
        ("vassal_contract"@, VASSAL_CONTRACT),
        ("vassal_obligation_level"@, VASSAL_OBLIGATION_LEVEL),
        ("holding_type"@, HOLDING_TYPE),
        ("tax_slot"@, TAX_SLOT),
    ]
}

/// The names of the scope types of Crusader Kings 3, for a table of the game.
pub fn scope_names() -> (r: Vec<ScopeName>)
    ensures
        names_view(r@) == spec_scope_names(),
{
    let mut r: Vec<ScopeName> = Vec::new();
    assert(names_view(r@) =~= Seq::<(Seq<char>, u64)>::empty());
    add_scope_name(&mut r, "character", CHARACTER);
    add_scope_name(&mut r, "culture", CULTURE);
    add_scope_name(&mut r, "province", PROVINCE);
    add_scope_name(&mut r, "religion", RELIGION);
    add_scope_name(&mut r, "war", WAR);
    add_scope_name(&mut r, "accolade", ACCOLADE);
    add_scope_name(&mut r, "accolade_type", ACCOLADE_TYPE);
    add_scope_name(&mut r, "activity", ACTIVITY);
    add_scope_name(&mut r, "activity_type", ACTIVITY_TYPE);
    add_scope_name(&mut r, "army", ARMY);
    add_scope_name(&mut r, "artifact", ARTIFACT);
    add_scope_name(&mut r, "casus_belli", CASUS_BELLI);
    add_scope_name(&mut r, "character_memory", CHARACTER_MEMORY);
    add_scope_name(&mut r, "combat", COMBAT);
    add_scope_name(&mut r, "combat_side", COMBAT_SIDE);
    add_scope_name(&mut r, "council_task", COUNCIL_TASK);
    add_scope_name(&mut r, "culture_pillar", CULTURE_PILLAR);
    add_scope_name(&mut r, "culture_tradition", CULTURE_TRADITION);
    add_scope_name(&mut r, "decision", DECISION);
    add_scope_name(&mut r, "doctrine", DOCTRINE);
    add_scope_name(&mut r, "dynasty", DYNASTY);
    add_scope_name(&mut r, "dynasty_house", DYNASTY_HOUSE);
    add_scope_name(&mut r, "faction", FACTION);
    add_scope_name(&mut r, "faith", FAITH);
    add_scope_name(&mut r, "government_type", GOVERNMENT_TYPE);
    add_scope_name(&mut r, "great_holy_war", GREAT_HOLY_WAR);
    add_scope_name(&mut r, "holy_order", HOLY_ORDER);
    add_scope_name(&mut r, "inspiration", INSPIRATION);
    add_scope_name(&mut r, "landed_title", LANDED_TITLE);
    add_scope_name(&mut r, "mercenary_company", MERCENARY_COMPANY);
    add_scope_name(&mut r, "scheme", SCHEME);
    add_scope_name(&mut r, "secret", SECRET);
    add_scope_name(&mut r, "story_cycle", STORY_CYCLE);
    add_scope_name(&mut r, "struggle", STRUGGLE);
    add_scope_name(&mut r, "title_and_vassal_change", TITLE_AND_VASSAL_CHANGE);
    add_scope_name(&mut r, "trait", TRAIT);
    add_scope_name(&mut r, "travel_plan", TRAVEL_PLAN);
    add_scope_name(&mut r, "vassal_contract", VASSAL_CONTRACT);
    add_scope_name(&mut r, "vassal_obligation_level", VASSAL_OBLIGATION_LEVEL);
    add_scope_name(&mut r, "holding_type", HOLDING_TYPE);
    add_scope_name(&mut r, "tax_slot", TAX_SLOT);
    r
}

} // verus!
