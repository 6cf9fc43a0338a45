use vstd::prelude::*;
use vstd::string::StringExecFns;

use crate::options::{label_views, Trigger, WeightTable};

verus! {

/// Number of mist fragments a run requires, before any customisation.
pub const REQUIRED_MIST_FRAGMENTS: u32 = 10;

/// Number of extra mist fragments placed, before any customisation.
pub const EXTRA_MIST_FRAGMENTS: u32 = 5;

/// The option tables of the generated template, and its ordered triggers.
pub struct OutputOptions {
    pub progression_balancing: WeightTable,
    pub accessibility: WeightTable,
    pub character: WeightTable,
    pub triggers: Vec<Trigger>,
    pub character_profession: WeightTable,
    pub character_race: WeightTable,
    pub starting_mainhand_weapon: WeightTable,
    pub starting_offhand_weapon: WeightTable,
    pub group_content: WeightTable,
    pub include_competitive: WeightTable,
    pub achievement_weight: WeightTable,
    pub quest_weight: WeightTable,
    pub training_weight: WeightTable,
    pub world_boss_weight: WeightTable,
    pub storyline: WeightTable,
    pub required_mist_fragments: u32,
    pub extra_mist_fragments: u32,
    pub heal_skill: WeightTable,
    pub gear_slots: WeightTable,
}

impl OutputOptions {
    pub open spec fn wf(&self) -> bool {
        self.progression_balancing.wf()
        && self.accessibility.wf()
        && self.character.wf()
        && self.character_profession.wf()
        && self.character_race.wf()
        && self.starting_mainhand_weapon.wf()
        && self.starting_offhand_weapon.wf()
        && self.group_content.wf()
        && self.include_competitive.wf()
        && self.achievement_weight.wf()
        && self.quest_weight.wf()
        && self.training_weight.wf()
        && self.world_boss_weight.wf()
        && self.storyline.wf()
        && self.heal_skill.wf()
        && self.gear_slots.wf()
    }

    /// The standard weights of the tables that the user does not customise.
    pub open spec fn standard_weights(&self) -> bool {
        self.progression_balancing@ == seq![("random"@, 0u32), ("random-low"@, 0u32), ("random-high"@, 0u32), ("disabled"@, 0u32), ("normal"@, 50u32), ("extreme"@, 0u32)]
        && self.accessibility@ == seq![("locations"@, 0u32), ("items"@, 50u32), ("minimal"@, 0u32)]
        && self.starting_mainhand_weapon@ == seq![("none"@, 0u32), ("axe"@, 0u32), ("dagger"@, 0u32), ("mace"@, 0u32), ("pistol"@, 0u32), ("sword"@, 0u32), ("scepter"@, 0u32), ("greatsword"@, 0u32), ("hammer"@, 0u32), ("longbow"@, 0u32), ("rifle"@, 0u32), ("short_bow"@, 0u32), ("staff"@, 0u32), ("random_proficient"@, 50u32), ("random_proficient_one_handed"@, 0u32), ("random_proficient_two_handed"@, 0u32)]
        && self.starting_offhand_weapon@ == seq![("none"@, 0u32), ("scepter"@, 0u32), ("focus"@, 0u32), ("shield"@, 0u32), ("torch"@, 0u32), ("warhorn"@, 0u32), ("random_proficient"@, 50u32)]
        && self.group_content@ == seq![("none"@, 50u32), ("five_man"@, 25u32), ("ten_man"@, 10u32)]
        && self.include_competitive@ == seq![("false"@, 50u32), ("true"@, 10u32)]
        && self.achievement_weight@ == seq![("500"@, 50u32), ("random"@, 0u32), ("random-low"@, 0u32), ("random-high"@, 0u32)]
        && self.quest_weight@ == seq![("100"@, 50u32), ("random"@, 0u32), ("random-low"@, 0u32), ("random-high"@, 0u32)]
        && self.training_weight@ == seq![("100"@, 50u32), ("random"@, 0u32), ("random-low"@, 0u32), ("random-high"@, 0u32)]
        && self.world_boss_weight@ == seq![("250"@, 50u32), ("random"@, 0u32), ("random-low"@, 0u32), ("random-high"@, 0u32)]
        && self.heal_skill@ == seq![("randomize"@, 1u32), ("early"@, 10u32), ("starting"@, 50u32)]
        && self.gear_slots@ == seq![("randomize"@, 5u32), ("early"@, 50u32), ("starting"@, 10u32)]
    }

    /// Every table empty, no triggers, and the standard mist fragment counts.
    pub open spec fn blank(&self) -> bool {
        self.progression_balancing@.len() == 0
        && self.accessibility@.len() == 0
        && self.character@.len() == 0
        && self.character_profession@.len() == 0
        && self.character_race@.len() == 0
        && self.starting_mainhand_weapon@.len() == 0
        && self.starting_offhand_weapon@.len() == 0
        && self.group_content@.len() == 0
        && self.include_competitive@.len() == 0
        && self.achievement_weight@.len() == 0
        && self.quest_weight@.len() == 0
        && self.training_weight@.len() == 0
        && self.world_boss_weight@.len() == 0
        && self.storyline@.len() == 0
        && self.heal_skill@.len() == 0
        && self.gear_slots@.len() == 0
        && self.triggers@.len() == 0
        && self.required_mist_fragments == REQUIRED_MIST_FRAGMENTS
        && self.extra_mist_fragments == EXTRA_MIST_FRAGMENTS
    }

    /// Empty tables, no triggers, and the standard mist fragment counts.
    pub fn new() -> (r: OutputOptions)
        ensures
            r.wf(),
            r.blank(),
    {
        OutputOptions {
            progression_balancing: WeightTable::new(),
            accessibility: WeightTable::new(),
            character: WeightTable::new(),
            triggers: Vec::new(),
            character_profession: WeightTable::new(),
            character_race: WeightTable::new(),
            starting_mainhand_weapon: WeightTable::new(),
            starting_offhand_weapon: WeightTable::new(),
            group_content: WeightTable::new(),
            include_competitive: WeightTable::new(),
            achievement_weight: WeightTable::new(),
            quest_weight: WeightTable::new(),
            training_weight: WeightTable::new(),
            world_boss_weight: WeightTable::new(),
            storyline: WeightTable::new(),
            required_mist_fragments: REQUIRED_MIST_FRAGMENTS,
            extra_mist_fragments: EXTRA_MIST_FRAGMENTS,
            heal_skill: WeightTable::new(),
            gear_slots: WeightTable::new(),
        }
    }
}

impl Default for OutputOptions {
    /// The standard option weights, with no character, storyline or trigger yet.
    fn default() -> (r: OutputOptions)
        ensures
            r.wf(),
            r.character@.len() == 0,
            r.character_profession@.len() == 0,
            r.character_race@.len() == 0,
            r.storyline@.len() == 0,
            r.triggers@.len() == 0,
            r.required_mist_fragments == REQUIRED_MIST_FRAGMENTS,
            r.extra_mist_fragments == EXTRA_MIST_FRAGMENTS,
            r.standard_weights(),
    {
        let mut val = OutputOptions::new();
        let entries = [("random", 0u32), ("random-low", 0u32), ("random-high", 0u32), ("disabled", 0u32), ("normal", 50u32), ("extreme", 0u32)];
        proof {
            reveal_strlit("random");
            reveal_strlit("random-low");
            reveal_strlit("random-high");
            reveal_strlit("disabled");
            reveal_strlit("normal");
            reveal_strlit("extreme");
            assert("random"@.len() == 6 && "random"@[0] == 'r');
            assert("random-low"@.len() == 10 && "random-low"@[0] == 'r');
            assert("random-high"@.len() == 11 && "random-high"@[0] == 'r');
            assert("disabled"@.len() == 8 && "disabled"@[0] == 'd');
            assert("normal"@.len() == 6 && "normal"@[0] == 'n');
            assert("extreme"@.len() == 7 && "extreme"@[0] == 'e');
            assert(label_views(entries@) =~= seq![("random"@, 0u32), ("random-low"@, 0u32), ("random-high"@, 0u32), ("disabled"@, 0u32), ("normal"@, 50u32), ("extreme"@, 0u32)]);
        }
        val.progression_balancing = WeightTable::from_entries(&entries);
        let entries = [("locations", 0u32), ("items", 50u32), ("minimal", 0u32)];
        proof {
            reveal_strlit("locations");
            reveal_strlit("items");
            reveal_strlit("minimal");
            assert("locations"@.len() == 9 && "locations"@[0] == 'l');
            assert("items"@.len() == 5 && "items"@[0] == 'i');
            assert("minimal"@.len() == 7 && "minimal"@[0] == 'm');
            assert(label_views(entries@) =~= seq![("locations"@, 0u32), ("items"@, 50u32), ("minimal"@, 0u32)]);
        }
        val.accessibility = WeightTable::from_entries(&entries);
        let entries = [("none", 0u32), ("axe", 0u32), ("dagger", 0u32), ("mace", 0u32), ("pistol", 0u32), ("sword", 0u32), ("scepter", 0u32), ("greatsword", 0u32), ("hammer", 0u32), ("longbow", 0u32), ("rifle", 0u32), ("short_bow", 0u32), ("staff", 0u32), ("random_proficient", 50u32), ("random_proficient_one_handed", 0u32), ("random_proficient_two_handed", 0u32)];
        proof {
            reveal_strlit("none");
            reveal_strlit("axe");
            reveal_strlit("dagger");
            reveal_strlit("mace");
            reveal_strlit("pistol");
            reveal_strlit("sword");
            reveal_strlit("scepter");
            reveal_strlit("greatsword");
            reveal_strlit("hammer");
            reveal_strlit("longbow");
            reveal_strlit("rifle");
            reveal_strlit("short_bow");
            reveal_strlit("staff");
            reveal_strlit("random_proficient");
            reveal_strlit("random_proficient_one_handed");
            reveal_strlit("random_proficient_two_handed");
            assert("none"@.len() == 4 && "none"@[0] == 'n');
            assert("axe"@.len() == 3 && "axe"@[0] == 'a');
            assert("dagger"@.len() == 6 && "dagger"@[0] == 'd');
            assert("mace"@.len() == 4 && "mace"@[0] == 'm');
            assert("pistol"@.len() == 6 && "pistol"@[0] == 'p');
            assert("sword"@.len() == 5 && "sword"@[0] == 's');
            assert("scepter"@.len() == 7 && "scepter"@[0] == 's');
            assert("greatsword"@.len() == 10 && "greatsword"@[0] == 'g');
            assert("hammer"@.len() == 6 && "hammer"@[0] == 'h');
            assert("longbow"@.len() == 7 && "longbow"@[0] == 'l');
            assert("rifle"@.len() == 5 && "rifle"@[0] == 'r');
            assert("short_bow"@.len() == 9 && "short_bow"@[0] == 's');
            assert("staff"@.len() == 5 && "staff"@[0] == 's');
            assert("random_proficient"@.len() == 17 && "random_proficient"@[0] == 'r');
            assert("random_proficient_one_handed"@.len() == 28 && "random_proficient_one_handed"@[0] == 'r');
            assert("random_proficient_two_handed"@.len() == 28 && "random_proficient_two_handed"@[0] == 'r');
            assert("sword"@[1] != "staff"@[1]);
            assert("random_proficient_one_handed"@[18] != "random_proficient_two_handed"@[18]);
            assert(label_views(entries@) =~= seq![("none"@, 0u32), ("axe"@, 0u32), ("dagger"@, 0u32), ("mace"@, 0u32), ("pistol"@, 0u32), ("sword"@, 0u32), ("scepter"@, 0u32), ("greatsword"@, 0u32), ("hammer"@, 0u32), ("longbow"@, 0u32), ("rifle"@, 0u32), ("short_bow"@, 0u32), ("staff"@, 0u32), ("random_proficient"@, 50u32), ("random_proficient_one_handed"@, 0u32), ("random_proficient_two_handed"@, 0u32)]);
        }
        val.starting_mainhand_weapon = WeightTable::from_entries(&entries);
        let entries = [("none", 0u32), ("scepter", 0u32), ("focus", 0u32), ("shield", 0u32), ("torch", 0u32), ("warhorn", 0u32), ("random_proficient", 50u32)];
        proof {
            reveal_strlit("none");
            reveal_strlit("scepter");
            reveal_strlit("focus");
            reveal_strlit("shield");
            reveal_strlit("torch");
            reveal_strlit("warhorn");
            reveal_strlit("random_proficient");
            assert("none"@.len() == 4 && "none"@[0] == 'n');
            assert("scepter"@.len() == 7 && "scepter"@[0] == 's');
            assert("focus"@.len() == 5 && "focus"@[0] == 'f');
            assert("shield"@.len() == 6 && "shield"@[0] == 's');
            assert("torch"@.len() == 5 && "torch"@[0] == 't');
            assert("warhorn"@.len() == 7 && "warhorn"@[0] == 'w');
            assert("random_proficient"@.len() == 17 && "random_proficient"@[0] == 'r');
            assert(label_views(entries@) =~= seq![("none"@, 0u32), ("scepter"@, 0u32), ("focus"@, 0u32), ("shield"@, 0u32), ("torch"@, 0u32), ("warhorn"@, 0u32), ("random_proficient"@, 50u32)]);
        }
        val.starting_offhand_weapon = WeightTable::from_entries(&entries);
        let entries = [("none", 50u32), ("five_man", 25u32), ("ten_man", 10u32)];
        proof {
            reveal_strlit("none");
            reveal_strlit("five_man");
            reveal_strlit("ten_man");
            assert("none"@.len() == 4 && "none"@[0] == 'n');
            assert("five_man"@.len() == 8 && "five_man"@[0] == 'f');
            assert("ten_man"@.len() == 7 && "ten_man"@[0] == 't');
            assert(label_views(entries@) =~= seq![("none"@, 50u32), ("five_man"@, 25u32), ("ten_man"@, 10u32)]);
        }
        val.group_content = WeightTable::from_entries(&entries);
        let entries = [("false", 50u32), ("true", 10u32)];
        proof {
            reveal_strlit("false");
            reveal_strlit("true");
            assert("false"@.len() == 5 && "false"@[0] == 'f');
            assert("true"@.len() == 4 && "true"@[0] == 't');
            assert(label_views(entries@) =~= seq![("false"@, 50u32), ("true"@, 10u32)]);
        }
        val.include_competitive = WeightTable::from_entries(&entries);
        let entries = [("500", 50u32), ("random", 0u32), ("random-low", 0u32), ("random-high", 0u32)];
        proof {
            reveal_strlit("500");
            reveal_strlit("random");
            reveal_strlit("random-low");
            reveal_strlit("random-high");
            assert("500"@.len() == 3 && "500"@[0] == '5');
            assert("random"@.len() == 6 && "random"@[0] == 'r');
            assert("random-low"@.len() == 10 && "random-low"@[0] == 'r');
            assert("random-high"@.len() == 11 && "random-high"@[0] == 'r');
            assert(label_views(entries@) =~= seq![("500"@, 50u32), ("random"@, 0u32), ("random-low"@, 0u32), ("random-high"@, 0u32)]);
        }
        val.achievement_weight = WeightTable::from_entries(&entries);
        let entries = [("100", 50u32), ("random", 0u32), ("random-low", 0u32), ("random-high", 0u32)];
        proof {
            reveal_strlit("100");
            reveal_strlit("random");
            reveal_strlit("random-low");
            reveal_strlit("random-high");
            assert("100"@.len() == 3 && "100"@[0] == '1');
            assert("random"@.len() == 6 && "random"@[0] == 'r');
            assert("random-low"@.len() == 10 && "random-low"@[0] == 'r');
            assert("random-high"@.len() == 11 && "random-high"@[0] == 'r');
            assert(label_views(entries@) =~= seq![("100"@, 50u32), ("random"@, 0u32), ("random-low"@, 0u32), ("random-high"@, 0u32)]);
        }
        val.quest_weight = WeightTable::from_entries(&entries);
        let entries = [("100", 50u32), ("random", 0u32), ("random-low", 0u32), ("random-high", 0u32)];
        proof {
            reveal_strlit("100");
            reveal_strlit("random");
            reveal_strlit("random-low");
            reveal_strlit("random-high");
            assert("100"@.len() == 3 && "100"@[0] == '1');
            assert("random"@.len() == 6 && "random"@[0] == 'r');
            assert("random-low"@.len() == 10 && "random-low"@[0] == 'r');
            assert("random-high"@.len() == 11 && "random-high"@[0] == 'r');
            assert(label_views(entries@) =~= seq![("100"@, 50u32), ("random"@, 0u32), ("random-low"@, 0u32), ("random-high"@, 0u32)]);
        }
        val.training_weight = WeightTable::from_entries(&entries);
        let entries = [("250", 50u32), ("random", 0u32), ("random-low", 0u32), ("random-high", 0u32)];
        proof {
            reveal_strlit("250");
            reveal_strlit("random");
            reveal_strlit("random-low");
            reveal_strlit("random-high");
            assert("250"@.len() == 3 && "250"@[0] == '2');
            assert("random"@.len() == 6 && "random"@[0] == 'r');
            assert("random-low"@.len() == 10 && "random-low"@[0] == 'r');
            assert("random-high"@.len() == 11 && "random-high"@[0] == 'r');
            assert(label_views(entries@) =~= seq![("250"@, 50u32), ("random"@, 0u32), ("random-low"@, 0u32), ("random-high"@, 0u32)]);
        }
        val.world_boss_weight = WeightTable::from_entries(&entries);
        let entries = [("randomize", 1u32), ("early", 10u32), ("starting", 50u32)];
        proof {
            reveal_strlit("randomize");
            reveal_strlit("early");
            reveal_strlit("starting");
            assert("randomize"@.len() == 9 && "randomize"@[0] == 'r');
            assert("early"@.len() == 5 && "early"@[0] == 'e');
            assert("starting"@.len() == 8 && "starting"@[0] == 's');
            assert(label_views(entries@) =~= seq![("randomize"@, 1u32), ("early"@, 10u32), ("starting"@, 50u32)]);
        }
        val.heal_skill = WeightTable::from_entries(&entries);
        let entries = [("randomize", 5u32), ("early", 50u32), ("starting", 10u32)];
        proof {
            reveal_strlit("randomize");
            reveal_strlit("early");
            reveal_strlit("starting");
            assert("randomize"@.len() == 9 && "randomize"@[0] == 'r');
            assert("early"@.len() == 5 && "early"@[0] == 'e');
            assert("starting"@.len() == 8 && "starting"@[0] == 's');
            assert(label_views(entries@) =~= seq![("randomize"@, 5u32), ("early"@, 50u32), ("starting"@, 10u32)]);
        }
        val.gear_slots = WeightTable::from_entries(&entries);
        val
    }
}

/// The generated template document.
pub struct Output {
    pub name: String,
    pub description: String,
    pub game: String,
    pub game_options: OutputOptions,
}

pub open spec fn template_name() -> Seq<char> {
    "Player{number}"@
}

pub open spec fn template_description() -> Seq<char> {
    "Customized Guild Wars 2 Template"@
}

impl Output {
    /// The document header around empty option tables.
    pub fn new() -> (r: Output)
        ensures
            r.name@ == template_name(),
            r.description@ == template_description(),
            r.game@ == crate::options::game_name(),
            r.game_options.wf(),
            r.game_options.blank(),
    {
        Output {
            name: String::from_str("Player{number}"),
            description: String::from_str("Customized Guild Wars 2 Template"),
            game: String::from_str("Guild Wars 2"),
            game_options: OutputOptions::new(),
        }
    }
}

impl Default for Output {
    /// The document header around the standard option weights.
    fn default() -> (r: Output)
        ensures
            r.game_options.standard_weights(),
            r.game_options.character_profession@.len() == 0,
            r.game_options.character_race@.len() == 0,
            r.game_options.required_mist_fragments == REQUIRED_MIST_FRAGMENTS,
            r.game_options.extra_mist_fragments == EXTRA_MIST_FRAGMENTS,
            r.name@ == template_name(),
            r.description@ == template_description(),
            r.game@ == crate::options::game_name(),
            r.game_options.wf(),
            r.game_options.triggers@.len() == 0,
            r.game_options.character@.len() == 0,
            r.game_options.storyline@.len() == 0,
    {
        let mut val = Output::new();
        val.game_options = OutputOptions::default();
        val
    }
}

} // verus!
