//! The capability an enumerated type must offer to be prompted for: its
//! declared variant identifiers in a stable order, the identifier of a
//! value, and construction from a variant's position. Display-name
//! derivation, parsing, and the candidate list all come for free on top.
use vstd::prelude::*;

use crate::codec::add_spaces_before_caps;
use crate::codec::display_names;
use crate::codec::display_names_of;
use crate::codec::display_of;
use crate::codec::match_index;
use crate::codec::parse_input;

verus! {

/// An enumerated type the prompt engine can ask for. An implementor names
/// its variants' raw identifiers in declaration order and ties every value
/// to its position; parsing and display derivation are provided.
pub trait PromptableEnum: Sized {
    /// The declared raw identifiers of all variants, in declaration order.
    spec fn raws() -> Seq<Seq<char>>;

    /// The position of this value in the declared variant list.
    spec fn variant_index(&self) -> int;

    /// The raw identifiers of all variants, in declaration order.
    fn variants_raw() -> (v: Vec<String>)
        ensures
            v.deep_view() == Self::raws(),
    ;

    /// The raw identifier of this value.
    fn raw_name(&self) -> (r: String)
        requires
            0 <= self.variant_index() < Self::raws().len(),
        ensures
            r@ == Self::raws()[self.variant_index()],
    ;

    /// The variant at a position of the declared list.
    fn from_index(i: usize) -> (r: Self)
        requires
            (i as int) < Self::raws().len(),
        ensures
            r.variant_index() == i as int,
    ;

    /// The display name of this value: its raw identifier with the derived
    /// spaces in.
    fn display_name(&self) -> (r: String)
        requires
            0 <= self.variant_index() < Self::raws().len(),
        ensures
            r@ == display_of(Self::raws()[self.variant_index()]),
    {
        let raw = self.raw_name();
        add_spaces_before_caps(raw.as_str())
    }

    /// Parses trimmed text into a variant: the first variant, in declaration
    /// order, whose display name or raw identifier equals the text
    /// case-insensitively; nothing when none does.
    fn from_input_str(s: &str) -> (r: Option<Self>)
        ensures
            match r {
                Some(v) => 0 <= v.variant_index() < Self::raws().len() && match_index(
                    s@,
                    Self::raws(),
                ) == Some(v.variant_index()),
                None => match_index(s@, Self::raws()) is None,
            },
    {
        let raws = Self::variants_raw();
        match parse_input(s, &raws) {
            Some(i) => {
                proof {
                    crate::codec::lemma_match_index_first(s@, Self::raws());
                }
                Some(Self::from_index(i))
            },
            None => None,
        }
    }

    /// The display names of all variants, in declaration order.
    fn variants_as_strings() -> (r: Vec<String>)
        ensures
            r.deep_view() == display_names_of(Self::raws()),
    {
        let raws = Self::variants_raw();
        display_names(&raws)
    }
}

/// A small promptable enum of the library's own — the compass directions
/// plus up and down — showing what an implementor of the capability
/// provides.
#[derive(Clone, Copy, Debug, PartialEq, Eq, Structural)]
pub enum Direction {
    North,
    South,
    West,
    East,
    Up,
    Down,
}

impl PromptableEnum for Direction {
    open spec fn raws() -> Seq<Seq<char>> {
        seq![
            seq!['N', 'o', 'r', 't', 'h'],
            seq!['S', 'o', 'u', 't', 'h'],
            seq!['W', 'e', 's', 't'],
            seq!['E', 'a', 's', 't'],
            seq!['U', 'p'],
            seq!['D', 'o', 'w', 'n'],
        ]
    }

    open spec fn variant_index(&self) -> int {
        match self {
            Direction::North => 0,
            Direction::South => 1,
            Direction::West => 2,
            Direction::East => 3,
            Direction::Up => 4,
            Direction::Down => 5,
        }
    }

    fn variants_raw() -> (v: Vec<String>) {
        let mut v: Vec<String> = Vec::new();
        v.push(String::from_str("North"));
        v.push(String::from_str("South"));
        v.push(String::from_str("West"));
        v.push(String::from_str("East"));
        v.push(String::from_str("Up"));
        v.push(String::from_str("Down"));
        proof {
            reveal_strlit("North");
            reveal_strlit("South");
            reveal_strlit("West");
            reveal_strlit("East");
            reveal_strlit("Up");
            reveal_strlit("Down");
            assert(v.deep_view() =~~= Self::raws());
        }
        v
    }

    fn raw_name(&self) -> (r: String) {
        let r = match self {
            Direction::North => String::from_str("North"),
            Direction::South => String::from_str("South"),
            Direction::West => String::from_str("West"),
            Direction::East => String::from_str("East"),
            Direction::Up => String::from_str("Up"),
            Direction::Down => String::from_str("Down"),
        };
        proof {
            reveal_strlit("North");
            reveal_strlit("South");
            reveal_strlit("West");
            reveal_strlit("East");
            reveal_strlit("Up");
            reveal_strlit("Down");
            assert(r@ =~= Self::raws()[self.variant_index()]);
        }
        r
    }

    fn from_index(i: usize) -> (r: Self) {
        if i == 0 {
            Direction::North
        } else if i == 1 {
            Direction::South
        } else if i == 2 {
            Direction::West
        } else if i == 3 {
            Direction::East
        } else if i == 4 {
            Direction::Up
        } else {
            Direction::Down
        }
    }
}

} // verus!
