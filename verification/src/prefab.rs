use crate::error::Error;
use vstd::prelude::*;
use vstd::std_specs::convert::{FromSpecImpl, TryFromSpecImpl};

verus! {

/// What may be placed on a cell of the grid. `Empty` marks a cell that holds
/// nothing.
#[derive(Clone, Copy, Debug, PartialEq, Eq, Structural)]
pub enum Prefab {
    Empty,
    Melee,
    Projectile,
    JumpPad,
    Stairs,
    Hideous,
}

impl Prefab {
    /// The character that stands for this prefab in a pattern's text.
    pub open spec fn to_char(self) -> char {
        match self {
            Prefab::Empty => '0',
            Prefab::Melee => 'n',
            Prefab::Projectile => 'p',
            Prefab::JumpPad => 'J',
            Prefab::Stairs => 's',
            Prefab::Hideous => 'H',
        }
    }

    /// The prefab that a character stands for, if it stands for one.
    pub open spec fn from_char(c: char) -> Option<Prefab> {
        if c == '0' {
            Some(Prefab::Empty)
        } else if c == 'n' {
            Some(Prefab::Melee)
        } else if c == 'p' {
            Some(Prefab::Projectile)
        } else if c == 'J' {
            Some(Prefab::JumpPad)
        } else if c == 's' {
            Some(Prefab::Stairs)
        } else if c == 'H' {
            Some(Prefab::Hideous)
        } else {
            None
        }
    }

    /// Reading back the character of a prefab gives that prefab.
    pub proof fn lemma_char_round_trip(self)
        ensures
            Prefab::from_char(self.to_char()) == Some(self),
    {
    }

    /// A character stands for at most one prefab, and that prefab is written
    /// with this very character.
    pub proof fn lemma_from_char_inverse(c: char)
        ensures
            Prefab::from_char(c) matches Some(p) ==> p.to_char() == c,
    {
    }

    pub fn match_char(prefab: &Prefab) -> (c: char)
        ensures
            c == prefab.to_char(),
    {
        match prefab {
            Prefab::Empty => '0',
            Prefab::Melee => 'n',
            Prefab::Projectile => 'p',
            Prefab::JumpPad => 'J',
            Prefab::Stairs => 's',
            Prefab::Hideous => 'H',
        }
    }
}

impl From<Prefab> for char {
    fn from(prefab: Prefab) -> (c: char) {
        Prefab::match_char(&prefab)
    }
}

impl FromSpecImpl<Prefab> for char {
    open spec fn obeys_from_spec() -> bool {
        true
    }

    open spec fn from_spec(prefab: Prefab) -> char {
        prefab.to_char()
    }
}

impl TryFrom<char> for Prefab {
    type Error = Error;

    fn try_from(value: char) -> (r: Result<Prefab, Error>) {
        match value {
            'n' => Ok(Prefab::Melee),
            'p' => Ok(Prefab::Projectile),
            'J' => Ok(Prefab::JumpPad),
            'H' => Ok(Prefab::Hideous),
            's' => Ok(Prefab::Stairs),
            '0' => Ok(Prefab::Empty),
            _ => Err(Error::UltraMapInvalidCharacter),
        }
    }
}

impl TryFromSpecImpl<char> for Prefab {
    open spec fn obeys_try_from_spec() -> bool {
        true
    }

    open spec fn try_from_spec(value: char) -> Result<Prefab, Error> {
        match Prefab::from_char(value) {
            Some(prefab) => Ok(prefab),
            None => Err(Error::UltraMapInvalidCharacter),
        }
    }
}

impl Default for Prefab {
    fn default() -> (prefab: Prefab)
        ensures
            prefab == Prefab::Empty,
    {
        Prefab::Empty
    }
}

} // verus!
