//! Card identities: rank, suit, face-down flag, and the names of the
//! face and back images a renderer should draw for a card.

use vstd::prelude::*;
use vstd::string::StringExecFns;

verus! {

#[derive(Clone, Copy, PartialEq, Eq, Structural, Debug)]
pub enum Suit {
    Clubs,
    Diamonds,
    Hearts,
    Spades,
}

#[derive(Clone, Copy, PartialEq, Eq, Structural, Debug)]
pub enum Rank {
    Ace,
    Two,
    Three,
    Four,
    Five,
    Six,
    Seven,
    Eight,
    Nine,
    Ten,
    Jack,
    Queen,
    King,
}

/// A card is its immutable (rank, suit) identity plus the mutable
/// face-down flag; equality includes the flag, so a face-down card is
/// never equal to its face-up twin in pile lookups.
#[derive(Clone, Copy, PartialEq, Eq, Structural, Debug)]
pub struct Card {
    pub rank: Rank,
    pub suit: Suit,
    pub flipped: bool,
}

pub open spec fn suit_index(s: Suit) -> int {
    match s {
        Suit::Clubs => 0,
        Suit::Diamonds => 1,
        Suit::Hearts => 2,
        Suit::Spades => 3,
    }
}

pub open spec fn rank_index(r: Rank) -> int {
    match r {
        Rank::Ace => 0,
        Rank::Two => 1,
        Rank::Three => 2,
        Rank::Four => 3,
        Rank::Five => 4,
        Rank::Six => 5,
        Rank::Seven => 6,
        Rank::Eight => 7,
        Rank::Nine => 8,
        Rank::Ten => 9,
        Rank::Jack => 10,
        Rank::Queen => 11,
        Rank::King => 12,
    }
}

pub open spec fn suit_of_index(i: int) -> Suit {
    if i == 0 {
        Suit::Clubs
    } else if i == 1 {
        Suit::Diamonds
    } else if i == 2 {
        Suit::Hearts
    } else {
        Suit::Spades
    }
}

pub open spec fn rank_of_index(i: int) -> Rank {
    if i == 0 {
        Rank::Ace
    } else if i == 1 {
        Rank::Two
    } else if i == 2 {
        Rank::Three
    } else if i == 3 {
        Rank::Four
    } else if i == 4 {
        Rank::Five
    } else if i == 5 {
        Rank::Six
    } else if i == 6 {
        Rank::Seven
    } else if i == 7 {
        Rank::Eight
    } else if i == 8 {
        Rank::Nine
    } else if i == 9 {
        Rank::Ten
    } else if i == 10 {
        Rank::Jack
    } else if i == 11 {
        Rank::Queen
    } else {
        Rank::King
    }
}

pub fn suit_from_index(i: u8) -> (s: Suit)
    requires
        i < 4,
    ensures
        s == suit_of_index(i as int),
{
    if i == 0 {
        Suit::Clubs
    } else if i == 1 {
        Suit::Diamonds
    } else if i == 2 {
        Suit::Hearts
    } else {
        Suit::Spades
    }
}

pub fn rank_from_index(i: u8) -> (r: Rank)
    requires
        i < 13,
    ensures
        r == rank_of_index(i as int),
{
    if i == 0 {
        Rank::Ace
    } else if i == 1 {
        Rank::Two
    } else if i == 2 {
        Rank::Three
    } else if i == 3 {
        Rank::Four
    } else if i == 4 {
        Rank::Five
    } else if i == 5 {
        Rank::Six
    } else if i == 6 {
        Rank::Seven
    } else if i == 7 {
        Rank::Eight
    } else if i == 8 {
        Rank::Nine
    } else if i == 9 {
        Rank::Ten
    } else if i == 10 {
        Rank::Jack
    } else if i == 11 {
        Rank::Queen
    } else {
        Rank::King
    }
}

pub open spec fn suit_name(s: Suit) -> Seq<char> {
    match s {
        Suit::Clubs => "clubs"@,
        Suit::Diamonds => "diamonds"@,
        Suit::Hearts => "hearts"@,
        Suit::Spades => "spades"@,
    }
}

pub open spec fn rank_name(r: Rank) -> Seq<char> {
    match r {
        Rank::Ace => "ace"@,
        Rank::Two => "02"@,
        Rank::Three => "03"@,
        Rank::Four => "04"@,
        Rank::Five => "05"@,
        Rank::Six => "06"@,
        Rank::Seven => "07"@,
        Rank::Eight => "08"@,
        Rank::Nine => "09"@,
        Rank::Ten => "10"@,
        Rank::Jack => "jack"@,
        Rank::Queen => "queen"@,
        Rank::King => "king"@,
    }
}

/// Name of the front-face image of a card: `{suit}_{rank}.png`.
pub open spec fn spec_asset_name(c: Card) -> Seq<char> {
    suit_name(c.suit) + "_"@ + rank_name(c.rank) + ".png"@
}

/// Name of the shared back-face image.
pub open spec fn spec_back_asset_name() -> Seq<char> {
    "back01.png"@
}

impl Card {
    /// The front-face image name for this card's identity.
    pub fn asset(&self) -> (r: String)
        ensures
            r@ == spec_asset_name(*self),
    {
        let prefix: &str = match self.suit {
            Suit::Clubs => "clubs",
            Suit::Diamonds => "diamonds",
            Suit::Hearts => "hearts",
            Suit::Spades => "spades",
        };
        let suffix: &str = match self.rank {
            Rank::Ace => "ace",
            Rank::Two => "02",
            Rank::Three => "03",
            Rank::Four => "04",
            Rank::Five => "05",
            Rank::Six => "06",
            Rank::Seven => "07",
            Rank::Eight => "08",
            Rank::Nine => "09",
            Rank::Ten => "10",
            Rank::Jack => "jack",
            Rank::Queen => "queen",
            Rank::King => "king",
        };
        let mut name = prefix.to_owned();
        name.append("_");
        name.append(suffix);
        name.append(".png");
        name
    }

    /// The back-face image name, the same for every card.
    pub fn back_asset(&self) -> (r: String)
        ensures
            r@ == spec_back_asset_name(),
    {
        "back01.png".to_owned()
    }

    /// The image a renderer should currently show for this card: the
    /// back while it is face-down, its front face otherwise.
    pub fn display_asset(&self) -> (r: String)
        ensures
            self.flipped ==> r@ == spec_back_asset_name(),
            !self.flipped ==> r@ == spec_asset_name(*self),
    {
        if self.flipped {
            self.back_asset()
        } else {
            self.asset()
        }
    }
}

/// The card at position `k` of the unshuffled standard deck: the suits
/// in order, thirteen ranks within each suit, all face-down.
pub open spec fn standard_card(k: int) -> Card {
    Card { rank: rank_of_index(k % 13), suit: suit_of_index(k / 13), flipped: true }
}

/// The 52-card standard deck in its fixed construction order.
pub open spec fn standard_deck() -> Seq<Card> {
    Seq::new(52, |k: int| standard_card(k))
}

/// No two positions of the standard deck hold the same card: the
/// 52 (rank, suit) identities are pairwise distinct.
pub proof fn lemma_standard_deck_distinct()
    ensures
        forall|i: int, j: int|
            0 <= i < 52 && 0 <= j < 52 && i != j ==> standard_deck()[i] != standard_deck()[j],
{
    assert forall|i: int, j: int|
        0 <= i < 52 && 0 <= j < 52 && i != j implies standard_deck()[i] != standard_deck()[j] by {
        if i / 13 == j / 13 && i % 13 == j % 13 {
            assert(i == (i / 13) * 13 + i % 13) by (nonlinear_arith)
                requires 0 <= i < 52;
            assert(j == (j / 13) * 13 + j % 13) by (nonlinear_arith)
                requires 0 <= j < 52;
        } else if i / 13 != j / 13 {
            assert(suit_index(suit_of_index(i / 13)) == i / 13);
            assert(suit_index(suit_of_index(j / 13)) == j / 13);
        } else {
            assert(rank_index(rank_of_index(i % 13)) == i % 13);
            assert(rank_index(rank_of_index(j % 13)) == j % 13);
        }
    }
}

} // verus!
