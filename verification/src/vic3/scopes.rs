//! The scope types of Victoria 3: the bit of each tag, and its name.

use vstd::prelude::*;
use crate::scopes::{ScopeName, add_scope_name, names_view};

verus! {

pub const COLOR: u64 = 0x0000_0000_0000_0010;
pub const COUNTRY: u64 = 0x0000_0000_0000_0020;
pub const CHARACTER: u64 = 0x0000_0000_0000_0040;
pub const CULTURE: u64 = 0x0000_0000_0000_0080;
pub const PROVINCE: u64 = 0x0000_0000_0000_0100;
pub const POP: u64 = 0x0000_0000_0000_0200;
pub const PARTY: u64 = 0x0000_0000_0000_0400;
pub const RELIGION: u64 = 0x0000_0000_0000_0800;
pub const STATE: u64 = 0x0000_0000_0000_1000;
pub const WAR: u64 = 0x0000_0000_0000_2000;

pub const BATTLE: u64 = 0x0000_0000_0001_0000;
pub const BATTLE_SIDE: u64 = 0x0000_0000_0002_0000;
pub const BUILDING: u64 = 0x0000_0000_0004_0000;
pub const BUILDING_TYPE: u64 = 0x0000_0000_0008_0000;
pub const CANAL_TYPE: u64 = 0x0000_0000_0010_0000;
pub const CIVIL_WAR: u64 = 0x0000_0000_0020_0000;
pub const COMBAT_UNIT: u64 = 0x0000_0000_0040_0000;
pub const COMMANDER_ORDER: u64 = 0x0000_0000_0080_0000;
pub const COMMANDER_ORDER_TYPE: u64 = 0x0000_0000_0100_0000;
pub const COUNTRY_CREATION: u64 = 0x0000_0000_0200_0000;
pub const COUNTRY_DEFINITION: u64 = 0x0000_0000_0400_0000;
pub const COUNTRY_FORMATION: u64 = 0x0000_0000_0800_0000;
pub const DECREE: u64 = 0x0000_0000_1000_0000;
pub const DIPLOMATIC_ACTION: u64 = 0x0000_0000_2000_0000;
pub const DIPLOMATIC_PACT: u64 = 0x0000_0000_4000_0000;
pub const DIPLOMATIC_PLAY: u64 = 0x0000_0000_8000_0000;
pub const DIPLOMATIC_RELATIONS: u64 = 0x0000_0001_0000_0000;
pub const FRONT: u64 = 0x0000_0002_0000_0000;
pub const GOODS: u64 = 0x0000_0004_0000_0000;
pub const HQ: u64 = 0x0000_0008_0000_0000;
pub const IDEOLOGY: u64 = 0x0000_0010_0000_0000;
pub const INSTITUTION: u64 = 0x0000_0020_0000_0000;
pub const INSTITUTION_TYPE: u64 = 0x0000_0040_0000_0000;
pub const INTEREST_MARKER: u64 = 0x0000_0080_0000_0000;
pub const INTEREST_GROUP: u64 = 0x0000_0100_0000_0000;
pub const INTEREST_GROUP_TRAIT: u64 = 0x0000_0200_0000_0000;
pub const INTEREST_GROUP_TYPE: u64 = 0x0000_0400_0000_0000;
pub const JOURNALENTRY: u64 = 0x0000_0800_0000_0000;
pub const LAW: u64 = 0x0000_1000_0000_0000;
pub const LAW_TYPE: u64 = 0x0000_2000_0000_0000;
pub const MARKET: u64 = 0x0000_4000_0000_0000;
pub const MARKET_GOODS: u64 = 0x0000_8000_0000_0000;
pub const OBJECTIVE: u64 = 0x0001_0000_0000_0000;
pub const POLITICAL_MOVEMENT: u64 = 0x0002_0000_0000_0000;
pub const POP_TYPE: u64 = 0x0004_0000_0000_0000;
pub const SHIPPING_LANE: u64 = 0x0008_0000_0000_0000;
pub const STATE_REGION: u64 = 0x0010_0000_0000_0000;
pub const STATE_TRAIT: u64 = 0x0020_0000_0000_0000;
pub const STRATEGIC_REGION: u64 = 0x0040_0000_0000_0000;
pub const TECHNOLOGY: u64 = 0x0080_0000_0000_0000;
pub const TECHNOLOGY_STATUS: u64 = 0x0100_0000_0000_0000;
pub const THEATER: u64 = 0x0200_0000_0000_0000;
pub const TRADE_ROUTE: u64 = 0x0400_0000_0000_0000;

/// The names of the scope types of Victoria 3 as they are written in script,
/// each with its tag.
pub open spec fn spec_scope_names() -> Seq<(Seq<char>, u64)> {
    seq![
        ("color"@, COLOR),
        ("country"@, COUNTRY),
        ("character"@, CHARACTER),
        ("culture"@, CULTURE),
        ("province"@, PROVINCE),
        ("pop"@, POP),
        ("party"@, PARTY),
        ("religion"@, RELIGION),
        ("state"@, STATE),
        ("war"@, WAR),
        ("battle"@, BATTLE),
        ("battle_side"@, BATTLE_SIDE),
        ("building"@, BUILDING),
        ("building_type"@, BUILDING_TYPE),
        ("canal_type"@, CANAL_TYPE),
        ("civil_war"@, CIVIL_WAR),
        ("combat_unit"@, COMBAT_UNIT),
        ("commander_order"@, COMMANDER_ORDER),
        ("commander_order_type"@, COMMANDER_ORDER_TYPE),
        ("country_creation"@, COUNTRY_CREATION),
        ("country_definition"@, COUNTRY_DEFINITION),
        ("country_formation"@, COUNTRY_FORMATION),
        ("decree"@, DECREE),
        ("diplomatic_action"@, DIPLOMATIC_ACTION),
        ("diplomatic_pact"@, DIPLOMATIC_PACT),
        ("diplomatic_play"@, DIPLOMATIC_PLAY),
        ("diplomatic_relations"@, DIPLOMATIC_RELATIONS),
        ("front"@, FRONT),
        ("goods"@, GOODS),
        ("hq"@, HQ),
        ("ideology"@, IDEOLOGY),
        ("institution"@, INSTITUTION),
        ("institution_type"@, INSTITUTION_TYPE),
        ("interest_marker"@, INTEREST_MARKER),
        ("interest_group"@, INTEREST_GROUP),
        ("interest_group_trait"@, INTEREST_GROUP_TRAIT),
        ("interest_group_type"@, INTEREST_GROUP_TYPE),
        ("journalentry"@, JOURNALENTRY),
        ("law"@, LAW),
        ("law_type"@, LAW_TYPE),
        ("market"@, MARKET),
        ("market_goods"@, MARKET_GOODS),
        ("objective"@, OBJECTIVE),
        ("political_movement"@, POLITICAL_MOVEMENT),
        ("pop_type"@, POP_TYPE),
        ("shipping_lane"@, SHIPPING_LANE),
        ("state_region"@, STATE_REGION),
        ("state_trait"@, STATE_TRAIT),
        ("strategic_region"@, STRATEGIC_REGION),
        ("technology"@, TECHNOLOGY),
        ("technology_status"@, TECHNOLOGY_STATUS),
        ("theater"@, THEATER),
        ("trade_route"@, TRADE_ROUTE),
    ]
}

/// The names of the scope types of Victoria 3, for a table of the game.
pub fn scope_names() -> (r: Vec<ScopeName>)
    ensures
        names_view(r@) == spec_scope_names(),
{
    let mut r: Vec<ScopeName> = Vec::new();
    assert(names_view(r@) =~= Seq::<(Seq<char>, u64)>::empty());
    add_scope_name(&mut r, "color", COLOR);
    add_scope_name(&mut r, "country", COUNTRY);
    add_scope_name(&mut r, "character", CHARACTER);
    add_scope_name(&mut r, "culture", CULTURE);
    add_scope_name(&mut r, "province", PROVINCE);
    add_scope_name(&mut r, "pop", POP);
    add_scope_name(&mut r, "party", PARTY);
    add_scope_name(&mut r, "religion", RELIGION);
    add_scope_name(&mut r, "state", STATE);
    add_scope_name(&mut r, "war", WAR);
    add_scope_name(&mut r, "battle", BATTLE);
    add_scope_name(&mut r, "battle_side", BATTLE_SIDE);
    add_scope_name(&mut r, "building", BUILDING);
    add_scope_name(&mut r, "building_type", BUILDING_TYPE);
    add_scope_name(&mut r, "canal_type", CANAL_TYPE);
    add_scope_name(&mut r, "civil_war", CIVIL_WAR);
    add_scope_name(&mut r, "combat_unit", COMBAT_UNIT);
    add_scope_name(&mut r, "commander_order", COMMANDER_ORDER);
    add_scope_name(&mut r, "commander_order_type", COMMANDER_ORDER_TYPE);
    add_scope_name(&mut r, "country_creation", COUNTRY_CREATION);
    add_scope_name(&mut r, "country_definition", COUNTRY_DEFINITION);
    add_scope_name(&mut r, "country_formation", COUNTRY_FORMATION);
    add_scope_name(&mut r, "decree", DECREE);
    add_scope_name(&mut r, "diplomatic_action", DIPLOMATIC_ACTION);
    add_scope_name(&mut r, "diplomatic_pact", DIPLOMATIC_PACT);
    add_scope_name(&mut r, "diplomatic_play", DIPLOMATIC_PLAY);
    add_scope_name(&mut r, "diplomatic_relations", DIPLOMATIC_RELATIONS);
    add_scope_name(&mut r, "front", FRONT);
    add_scope_name(&mut r, "goods", GOODS);
    add_scope_name(&mut r, "hq", HQ);
    add_scope_name(&mut r, "ideology", IDEOLOGY);
    add_scope_name(&mut r, "institution", INSTITUTION);
    add_scope_name(&mut r, "institution_type", INSTITUTION_TYPE);
    add_scope_name(&mut r, "interest_marker", INTEREST_MARKER);
    add_scope_name(&mut r, "interest_group", INTEREST_GROUP);
    add_scope_name(&mut r, "interest_group_trait", INTEREST_GROUP_TRAIT);
    add_scope_name(&mut r, "interest_group_type", INTEREST_GROUP_TYPE);
    add_scope_name(&mut r, "journalentry", JOURNALENTRY);
    add_scope_name(&mut r, "law", LAW);
    add_scope_name(&mut r, "law_type", LAW_TYPE);
    add_scope_name(&mut r, "market", MARKET);
    add_scope_name(&mut r, "market_goods", MARKET_GOODS);
    add_scope_name(&mut r, "objective", OBJECTIVE);
    add_scope_name(&mut r, "political_movement", POLITICAL_MOVEMENT);
    add_scope_name(&mut r, "pop_type", POP_TYPE);
    add_scope_name(&mut r, "shipping_lane", SHIPPING_LANE);
    add_scope_name(&mut r, "state_region", STATE_REGION);
    add_scope_name(&mut r, "state_trait", STATE_TRAIT);
    add_scope_name(&mut r, "strategic_region", STRATEGIC_REGION);
    add_scope_name(&mut r, "technology", TECHNOLOGY);
    add_scope_name(&mut r, "technology_status", TECHNOLOGY_STATUS);
    add_scope_name(&mut r, "theater", THEATER);
    add_scope_name(&mut r, "trade_route", TRADE_ROUTE);
    r
}

} // verus!
