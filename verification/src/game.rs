//! Small closed enumerations that game packets carry: difficulty,
//! gamemode, dimension and level type, each with its wire value.

use vstd::prelude::*;

verus! {

#[derive(Clone, Copy, Debug, PartialEq, Eq, Structural)]
pub enum Difficulty {
    Peaceful,
    Easy,
    Normal,
    Hard,
}

impl Difficulty {
    pub open spec fn spec_value(self) -> u8 {
        match self {
            Difficulty::Peaceful => 0,
            Difficulty::Easy => 1,
            Difficulty::Normal => 2,
            Difficulty::Hard => 3,
        }
    }

    /// Which byte values name a difficulty.
    pub open spec fn spec_from(value: u8) -> Option<Difficulty> {
        if value == 0 {
            Some(Difficulty::Peaceful)
        } else if value == 1 {
            Some(Difficulty::Easy)
        } else if value == 2 {
            Some(Difficulty::Normal)
        } else if value == 3 {
            Some(Difficulty::Hard)
        } else {
            None
        }
    }

    pub fn as_u8(self) -> (r: u8)
        ensures
            r == self.spec_value(),
    {
        match self {
            Difficulty::Peaceful => 0,
            Difficulty::Easy => 1,
            Difficulty::Normal => 2,
            Difficulty::Hard => 3,
        }
    }

    pub fn from_u8(value: u8) -> (r: Option<Difficulty>)
        ensures
            r == Difficulty::spec_from(value),
            r matches Some(d) ==> d.spec_value() == value,
    {
        match value {
            0 => Some(Difficulty::Peaceful),
            1 => Some(Difficulty::Easy),
            2 => Some(Difficulty::Normal),
            3 => Some(Difficulty::Hard),
            _ => None,
        }
    }
}

#[derive(Clone, Copy, Debug, PartialEq, Eq, Structural)]
pub enum Gamemode {
    Survival,
    Creative,
    Adventure,
    Spectator,
}

impl Gamemode {
    pub open spec fn spec_value(self) -> u8 {
        match self {
            Gamemode::Survival => 0,
            Gamemode::Creative => 1,
            Gamemode::Adventure => 2,
            Gamemode::Spectator => 3,
        }
    }

    pub open spec fn spec_from(value: u8) -> Option<Gamemode> {
        if value == 0 {
            Some(Gamemode::Survival)
        } else if value == 1 {
            Some(Gamemode::Creative)
        } else if value == 2 {
            Some(Gamemode::Adventure)
        } else if value == 3 {
            Some(Gamemode::Spectator)
        } else {
            None
        }
    }

    pub fn as_u8(self) -> (r: u8)
        ensures
            r == self.spec_value(),
    {
        match self {
            Gamemode::Survival => 0,
            Gamemode::Creative => 1,
            Gamemode::Adventure => 2,
            Gamemode::Spectator => 3,
        }
    }

    pub fn from_u8(value: u8) -> (r: Option<Gamemode>)
        ensures
            r == Gamemode::spec_from(value),
            r matches Some(g) ==> g.spec_value() == value,
    {
        match value {
            0 => Some(Gamemode::Survival),
            1 => Some(Gamemode::Creative),
            2 => Some(Gamemode::Adventure),
            3 => Some(Gamemode::Spectator),
            _ => None,
        }
    }
}

#[derive(Clone, Copy, Debug, PartialEq, Eq, Hash, Structural)]
pub enum Dimension {
    Overworld,
    Nether,
    End,
    Custom(i32),
}

impl Dimension {
    pub open spec fn spec_value(self) -> i32 {
        match self {
            Dimension::Overworld => 0,
            Dimension::Nether => -1 as i32,
            Dimension::End => 1,
            Dimension::Custom(x) => x,
        }
    }

    pub open spec fn spec_from(value: i32) -> Dimension {
        if value == 0 {
            Dimension::Overworld
        } else if value == -1 {
            Dimension::Nether
        } else if value == 1 {
            Dimension::End
        } else {
            Dimension::Custom(value)
        }
    }

    pub fn as_i32(self) -> (r: i32)
        ensures
            r == self.spec_value(),
    {
        match self {
            Dimension::Overworld => 0,
            Dimension::Nether => -1,
            Dimension::End => 1,
            Dimension::Custom(x) => x,
        }
    }

    pub fn from_i32(value: i32) -> (r: Dimension)
        ensures
            r == Dimension::spec_from(value),
            r.spec_value() == value,
            r.is_canonical(),
    {
        if value == 0 {
            Dimension::Overworld
        } else if value == -1 {
            Dimension::Nether
        } else if value == 1 {
            Dimension::End
        } else {
            Dimension::Custom(value)
        }
    }

    /// A dimension is canonical when a `Custom` value does not alias
    /// one of the named dimensions; only canonical values survive a
    /// wire round trip unchanged, so the codec works on these.
    pub open spec fn is_canonical(self) -> bool {
        match self {
            Dimension::Custom(x) => x != 0 && x != -1 && x != 1,
            _ => true,
        }
    }

    /// Reduce to the canonical form with the same wire value.
    pub fn canonicalize(self) -> (r: Dimension)
        ensures
            r == Dimension::spec_from(self.spec_value()),
            r.spec_value() == self.spec_value(),
            r.is_canonical(),
    {
        Dimension::from_i32(self.as_i32())
    }
}

/// Round trip of the dimension's wire value: every canonical
/// dimension is recovered exactly from its integer.
pub proof fn lemma_dimension_round_trip(d: Dimension)
    requires
        d.is_canonical(),
    ensures
        Dimension::spec_from(d.spec_value()) == d,
{
}

/// Round trip of the gamemode's wire value.
pub proof fn lemma_gamemode_round_trip(g: Gamemode)
    ensures
        Gamemode::spec_from(g.spec_value()) == Some(g),
{
}

/// Round trip of the difficulty's wire value.
pub proof fn lemma_difficulty_round_trip(d: Difficulty)
    ensures
        Difficulty::spec_from(d.spec_value()) == Some(d),
{
}

#[derive(Clone, Copy, Debug, PartialEq, Eq, Structural)]
pub enum LevelType {
    Default,
    Flat,
    LargeBiomes,
    Amplified,
    Customized,
    Buffet,
    Default1_1,
}

impl LevelType {
    /// The wire name of each level type.
    pub open spec fn spec_name(self) -> Seq<char> {
        match self {
            LevelType::Default => "default"@,
            LevelType::Flat => "flat"@,
            LevelType::LargeBiomes => "largeBiomes"@,
            LevelType::Amplified => "amplified"@,
            LevelType::Customized => "customized"@,
            LevelType::Buffet => "buffet"@,
            LevelType::Default1_1 => "default_1_1"@,
        }
    }

    /// Which names denote a level type.
    pub open spec fn spec_from(s: Seq<char>) -> Option<LevelType> {
        if s == "default"@ {
            Some(LevelType::Default)
        } else if s == "flat"@ {
            Some(LevelType::Flat)
        } else if s == "largeBiomes"@ {
            Some(LevelType::LargeBiomes)
        } else if s == "amplified"@ {
            Some(LevelType::Amplified)
        } else if s == "customized"@ {
            Some(LevelType::Customized)
        } else if s == "buffet"@ {
            Some(LevelType::Buffet)
        } else if s == "default_1_1"@ {
            Some(LevelType::Default1_1)
        } else {
            None
        }
    }

    pub fn from_string(value: &str) -> (r: Option<LevelType>)
        ensures
            r == LevelType::spec_from(value@),
    {
        if crate::strutil::str_eq(value, "default") {
            Some(LevelType::Default)
        } else if crate::strutil::str_eq(value, "flat") {
            Some(LevelType::Flat)
        } else if crate::strutil::str_eq(value, "largeBiomes") {
            Some(LevelType::LargeBiomes)
        } else if crate::strutil::str_eq(value, "amplified") {
            Some(LevelType::Amplified)
        } else if crate::strutil::str_eq(value, "customized") {
            Some(LevelType::Customized)
        } else if crate::strutil::str_eq(value, "buffet") {
            Some(LevelType::Buffet)
        } else if crate::strutil::str_eq(value, "default_1_1") {
            Some(LevelType::Default1_1)
        } else {
            None
        }
    }

    pub fn to_string(&self) -> (r: &'static str)
        ensures
            r@ == self.spec_name(),
    {
        match self {
            LevelType::Default => "default",
            LevelType::Flat => "flat",
            LevelType::LargeBiomes => "largeBiomes",
            LevelType::Amplified => "amplified",
            LevelType::Customized => "customized",
            LevelType::Buffet => "buffet",
            LevelType::Default1_1 => "default_1_1",
        }
    }
}

/// The wire names are ASCII, so each UTF-8 encoding is one byte per
/// character, at most eleven bytes long.
pub proof fn lemma_level_type_name_fits(t: LevelType)
    ensures
        vstd::utf8::encode_utf8(t.spec_name()).len() == t.spec_name().len(),
        t.spec_name().len() <= 11,
{
    broadcast use vstd::utf8::is_ascii_chars_encode_utf8;

    reveal_strlit("default");
    reveal_strlit("flat");
    reveal_strlit("largeBiomes");
    reveal_strlit("amplified");
    reveal_strlit("customized");
    reveal_strlit("buffet");
    reveal_strlit("default_1_1");
    assert(vstd::utf8::is_ascii_chars(t.spec_name()));
}

/// Round trip of the level-type names: parsing a level type's own name
/// yields it back.
pub proof fn lemma_level_type_name_round_trip(t: LevelType)
    ensures
        LevelType::spec_from(t.spec_name()) == Some(t),
{
    reveal_strlit("default");
    reveal_strlit("flat");
    reveal_strlit("largeBiomes");
    reveal_strlit("amplified");
    reveal_strlit("customized");
    reveal_strlit("buffet");
    reveal_strlit("default_1_1");
    assert("default"@.len() == 7);
    assert("flat"@.len() == 4);
    assert("largeBiomes"@.len() == 11);
    assert("amplified"@.len() == 9);
    assert("customized"@.len() == 10);
    assert("buffet"@.len() == 6);
    assert("default_1_1"@.len() == 11);
    assert("default_1_1"@[0] == 'd');
    assert("largeBiomes"@[0] == 'l');
    match t {
        LevelType::Default => {
            assert(LevelType::spec_from("default"@) == Some(LevelType::Default));
        },
        LevelType::Flat => {
            assert(LevelType::spec_from("flat"@) == Some(LevelType::Flat));
        },
        LevelType::LargeBiomes => {
            assert(LevelType::spec_from("largeBiomes"@) == Some(LevelType::LargeBiomes));
        },
        LevelType::Amplified => {
            assert(LevelType::spec_from("amplified"@) == Some(LevelType::Amplified));
        },
        LevelType::Customized => {
            assert(LevelType::spec_from("customized"@) == Some(LevelType::Customized));
        },
        LevelType::Buffet => {
            assert(LevelType::spec_from("buffet"@) == Some(LevelType::Buffet));
        },
        LevelType::Default1_1 => {
            assert(LevelType::spec_from("default_1_1"@) == Some(LevelType::Default1_1));
        },
    }
}

} // verus!
