use vstd::prelude::*;

verus! {

/// The fixed set of narrative arcs that a template can weight, in their
/// canonical enumeration order.
#[derive(PartialEq, Eq, Structural, Clone, Copy, Debug)]
pub enum Storyline {
    Core,
    Season1,
    Season2,
    HeartOfThorns,
    Season3,
    PathOfFire,
    Season4,
    IcebroodSaga,
    EndOfDragons,
    SecretsOfTheObscure,
}

/// Number of storylines.
pub const STORYLINE_COUNT: usize = 10;

/// Every storyline, in enumeration order.
pub open spec fn all_storylines() -> Seq<Storyline> {
    seq![
        Storyline::Core,
        Storyline::Season1,
        Storyline::Season2,
        Storyline::HeartOfThorns,
        Storyline::Season3,
        Storyline::PathOfFire,
        Storyline::Season4,
        Storyline::IcebroodSaga,
        Storyline::EndOfDragons,
        Storyline::SecretsOfTheObscure,
    ]
}

impl Storyline {
    /// The season identifier under which the remote API publishes this storyline.
    pub open spec fn spec_id(self) -> Seq<char> {
        match self {
            Storyline::Core => "215AAA0F-CDAC-4F93-86DA-C155A99B5784"@,
            Storyline::Season1 => "A49D0CD7-E725-4141-8E10-180F1CED7CAF"@,
            Storyline::Season2 => "A515A1D3-4BD7-4594-AE30-2C5D05FF5960"@,
            Storyline::HeartOfThorns => "B8901E58-DC9D-4525-ADB2-79C93593291E"@,
            Storyline::Season3 => "09766A86-D88D-4DF2-9385-259E9A8CA583"@,
            Storyline::PathOfFire => "EAB597C0-C484-4FD3-9430-31433BAC81B6"@,
            Storyline::Season4 => "C22AFD21-667A-4AA8-8210-AC74EAEE58BB"@,
            Storyline::IcebroodSaga => "EDCAE800-302A-4D9B-8331-3CC769ADA0B3"@,
            Storyline::EndOfDragons => "D1B709AB-92B6-4EE9-8B40-2B7C628E5022"@,
            Storyline::SecretsOfTheObscure => "AEE99452-D323-4ABB-8F49-D7C0A752CBD1"@,
        }
    }

    /// The stable lowercase key used in option values and user overrides.
    pub open spec fn spec_key(self) -> Seq<char> {
        match self {
            Storyline::Core => "core"@,
            Storyline::Season1 => "season_1"@,
            Storyline::Season2 => "season_2"@,
            Storyline::HeartOfThorns => "heart_of_thorns"@,
            Storyline::Season3 => "season_3"@,
            Storyline::PathOfFire => "path_of_fire"@,
            Storyline::Season4 => "season_4"@,
            Storyline::IcebroodSaga => "icebrood_saga"@,
            Storyline::EndOfDragons => "end_of_dragons"@,
            Storyline::SecretsOfTheObscure => "secrets_of_the_obscure"@,
        }
    }

    pub open spec fn spec_default_weight(self) -> u32 {
        match self {
            Storyline::Core => 1,
            Storyline::Season1 => 2,
            Storyline::Season2 => 4,
            Storyline::HeartOfThorns => 8,
            Storyline::Season3 => 16,
            Storyline::PathOfFire => 32,
            Storyline::Season4 => 64,
            Storyline::IcebroodSaga => 128,
            Storyline::EndOfDragons => 256,
            Storyline::SecretsOfTheObscure => 512,
        }
    }

    pub open spec fn spec_max_quests(self) -> usize {
        match self {
            Storyline::Core => 49,
            Storyline::Season1 => 30,
            Storyline::Season2 => 32,
            Storyline::HeartOfThorns => 16,
            Storyline::Season3 => 36,
            Storyline::PathOfFire => 16,
            Storyline::Season4 => 30,
            Storyline::IcebroodSaga => 41,
            Storyline::EndOfDragons => 27,
            Storyline::SecretsOfTheObscure => 20,
        }
    }

    /// Position of this storyline in enumeration order.
    pub open spec fn spec_index(self) -> int {
        match self {
            Storyline::Core => 0,
            Storyline::Season1 => 1,
            Storyline::Season2 => 2,
            Storyline::HeartOfThorns => 3,
            Storyline::Season3 => 4,
            Storyline::PathOfFire => 5,
            Storyline::Season4 => 6,
            Storyline::IcebroodSaga => 7,
            Storyline::EndOfDragons => 8,
            Storyline::SecretsOfTheObscure => 9,
        }
    }

    pub fn index(&self) -> (r: usize)
        ensures
            r == self.spec_index(),
            all_storylines()[r as int] == *self,
    {
        match self {
            Storyline::Core => 0,
            Storyline::Season1 => 1,
            Storyline::Season2 => 2,
            Storyline::HeartOfThorns => 3,
            Storyline::Season3 => 4,
            Storyline::PathOfFire => 5,
            Storyline::Season4 => 6,
            Storyline::IcebroodSaga => 7,
            Storyline::EndOfDragons => 8,
            Storyline::SecretsOfTheObscure => 9,
        }
    }

    /// Every storyline, in enumeration order.
    pub fn all() -> (r: Vec<Storyline>)
        ensures
            r@ == all_storylines(),
            r@.len() == STORYLINE_COUNT,
    {
        let r = vec![
            Storyline::Core,
            Storyline::Season1,
            Storyline::Season2,
            Storyline::HeartOfThorns,
            Storyline::Season3,
            Storyline::PathOfFire,
            Storyline::Season4,
            Storyline::IcebroodSaga,
            Storyline::EndOfDragons,
            Storyline::SecretsOfTheObscure,
        ];
        assert(r@ =~= all_storylines());
        r
    }

    pub fn id(&self) -> (r: &'static str)
        ensures
            r@ == self.spec_id(),
    {
        match self {
            Storyline::Core => "215AAA0F-CDAC-4F93-86DA-C155A99B5784",
            Storyline::Season1 => "A49D0CD7-E725-4141-8E10-180F1CED7CAF",
            Storyline::Season2 => "A515A1D3-4BD7-4594-AE30-2C5D05FF5960",
            Storyline::HeartOfThorns => "B8901E58-DC9D-4525-ADB2-79C93593291E",
            Storyline::Season3 => "09766A86-D88D-4DF2-9385-259E9A8CA583",
            Storyline::PathOfFire => "EAB597C0-C484-4FD3-9430-31433BAC81B6",
            Storyline::Season4 => "C22AFD21-667A-4AA8-8210-AC74EAEE58BB",
            Storyline::IcebroodSaga => "EDCAE800-302A-4D9B-8331-3CC769ADA0B3",
            Storyline::EndOfDragons => "D1B709AB-92B6-4EE9-8B40-2B7C628E5022",
            Storyline::SecretsOfTheObscure => "AEE99452-D323-4ABB-8F49-D7C0A752CBD1",
        }
    }

    pub fn snake_case(&self) -> (r: &'static str)
        ensures
            r@ == self.spec_key(),
    {
        match self {
            Storyline::Core => "core",
            Storyline::Season1 => "season_1",
            Storyline::Season2 => "season_2",
            Storyline::HeartOfThorns => "heart_of_thorns",
            Storyline::Season3 => "season_3",
            Storyline::PathOfFire => "path_of_fire",
            Storyline::Season4 => "season_4",
            Storyline::IcebroodSaga => "icebrood_saga",
            Storyline::EndOfDragons => "end_of_dragons",
            Storyline::SecretsOfTheObscure => "secrets_of_the_obscure",
        }
    }

    pub fn default_weight(&self) -> (r: u32)
        ensures
            r == self.spec_default_weight(),
    {
        match self {
            Storyline::Core => 1,
            Storyline::Season1 => 2,
            Storyline::Season2 => 4,
            Storyline::HeartOfThorns => 8,
            Storyline::Season3 => 16,
            Storyline::PathOfFire => 32,
            Storyline::Season4 => 64,
            Storyline::IcebroodSaga => 128,
            Storyline::EndOfDragons => 256,
            Storyline::SecretsOfTheObscure => 512,
        }
    }

    pub fn max_quests(&self) -> (r: usize)
        ensures
            r == self.spec_max_quests(),
    {
        match self {
            Storyline::Core => 49,
            Storyline::Season1 => 30,
            Storyline::Season2 => 32,
            Storyline::HeartOfThorns => 16,
            Storyline::Season3 => 36,
            Storyline::PathOfFire => 16,
            Storyline::Season4 => 30,
            Storyline::IcebroodSaga => 41,
            Storyline::EndOfDragons => 27,
            Storyline::SecretsOfTheObscure => 20,
        }
    }
}

} // verus!
