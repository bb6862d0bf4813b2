//! The kinds of things that script can refer to by name.

use vstd::prelude::*;

verus! {

/// A catalog of named things.
#[derive(Clone, Copy, Debug, PartialEq, Eq, Hash, Structural)]
pub enum Item {
    Character,
    Culture,
    Doctrine,
    DoctrineParameter,
    Event,
    Faith,
    Loyalty,
    PortraitEnvironment,
    Province,
    Religion,
    ScriptedEffect,
    ScriptedIllustration,
    ScriptedTrigger,
    Title,
    Trait,
}

impl Item {
    pub open spec fn spec_name(self) -> Seq<char> {
        match self {
            Item::Character => "character"@,
            Item::Culture => "culture"@,
            Item::Doctrine => "doctrine"@,
            Item::DoctrineParameter => "doctrine parameter"@,
            Item::Event => "event"@,
            Item::Faith => "faith"@,
            Item::Loyalty => "loyalty"@,
            Item::PortraitEnvironment => "portrait environment"@,
            Item::Province => "province"@,
            Item::Religion => "religion"@,
            Item::ScriptedEffect => "scripted effect"@,
            Item::ScriptedIllustration => "scripted illustration"@,
            Item::ScriptedTrigger => "scripted trigger"@,
            Item::Title => "title"@,
            Item::Trait => "trait"@,
        }
    }

    /// What the catalog is called in messages.
    pub fn name(self) -> (r: &'static str)
        ensures
            r@ == self.spec_name(),
    {
        match self {
            Item::Character => "character",
            Item::Culture => "culture",
            Item::Doctrine => "doctrine",
            Item::DoctrineParameter => "doctrine parameter",
            Item::Event => "event",
            Item::Faith => "faith",
            Item::Loyalty => "loyalty",
            Item::PortraitEnvironment => "portrait environment",
            Item::Province => "province",
            Item::Religion => "religion",
            Item::ScriptedEffect => "scripted effect",
            Item::ScriptedIllustration => "scripted illustration",
            Item::ScriptedTrigger => "scripted trigger",
            Item::Title => "title",
            Item::Trait => "trait",
        }
    }
}

} // verus!
