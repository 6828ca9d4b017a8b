use solitaire::card::{Card, Rank, Suit};
use solitaire::deck::Deck;

fn all_ranks() -> Vec<Rank> {
    vec![
        Rank::Ace,
        Rank::Two,
        Rank::Three,
        Rank::Four,
        Rank::Five,
        Rank::Six,
        Rank::Seven,
        Rank::Eight,
        Rank::Nine,
        Rank::Ten,
        Rank::Jack,
        Rank::Queen,
        Rank::King,
    ]
}

fn all_suits() -> Vec<Suit> {
    vec![Suit::Clubs, Suit::Diamonds, Suit::Hearts, Suit::Spades]
}

fn count_identity(cards: &[Card], rank: &Rank, suit: &Suit) -> usize {
    cards
        .iter()
        .filter(|c| c.rank == *rank && c.suit == *suit)
        .count()
}

#[test]
fn new_deck_is_permutation_of_standard_set() {
    let deck = Deck::new();
    let cards = deck.get_cards();
    assert_eq!(cards.len(), 52);
    assert_eq!(deck.get_drawn_cards().len(), 0);
    for suit in all_suits() {
        for rank in all_ranks() {
            assert_eq!(count_identity(cards, &rank, &suit), 1);
        }
    }
    for c in cards.iter() {
        assert!(c.flipped);
    }
}

#[test]
fn shuffle_keeps_the_multiset_of_cards() {
    let mut deck = Deck::new();
    let before: Vec<Card> = deck.get_cards().clone();
    deck.shuffle();
    let after = deck.get_cards();
    assert_eq!(after.len(), before.len());
    for suit in all_suits() {
        for rank in all_ranks() {
            assert_eq!(
                count_identity(after, &rank, &suit),
                count_identity(&before, &rank, &suit)
            );
        }
    }
}

#[test]
fn draw_moves_top_card_to_drawn() {
    let mut deck = Deck::new();
    let top = *deck.get_cards().last().unwrap();
    let drawn = deck.draw();
    assert_eq!(drawn, Some(top));
    assert_eq!(deck.get_cards().len(), 51);
    assert_eq!(deck.get_drawn_cards().len(), 1);
    assert_eq!(*deck.get_drawn_cards().last().unwrap(), top);
}

#[test]
fn draw_on_empty_deck_returns_none() {
    let mut deck = Deck::new();
    for _ in 0..52 {
        assert!(deck.draw().is_some());
    }
    assert!(deck.is_empty());
    assert_eq!(deck.draw(), None);
    assert_eq!(deck.get_drawn_cards().len(), 52);
}

#[test]
fn drawing_all_yields_reverse_of_deck_order() {
    let mut deck = Deck::new();
    let original: Vec<Card> = deck.get_cards().clone();
    let mut seen: Vec<Card> = Vec::new();
    while let Some(c) = deck.draw() {
        seen.push(c);
    }
    assert_eq!(seen.len(), 52);
    assert_eq!(deck.get_drawn_cards(), &seen);
    let mut reversed = original.clone();
    reversed.reverse();
    assert_eq!(seen, reversed);
}

#[test]
fn draw_all_reset_draw_all_round_trip() {
    let mut deck = Deck::new();
    let mut first_pass: Vec<Card> = Vec::new();
    while let Some(c) = deck.draw() {
        first_pass.push(c);
    }
    assert!(deck.is_empty());
    deck.reset();
    assert_eq!(deck.get_cards().len(), 52);
    assert_eq!(deck.get_drawn_cards().len(), 0);
    let mut second_pass: Vec<Card> = Vec::new();
    while let Some(c) = deck.draw() {
        second_pass.push(c);
    }
    assert_eq!(first_pass, second_pass);
}

#[test]
fn play_pops_without_tracking() {
    let mut deck = Deck::new();
    let top = *deck.get_cards().last().unwrap();
    let played = deck.play();
    assert_eq!(played, Some(top));
    assert_eq!(deck.get_cards().len(), 51);
    assert_eq!(deck.get_drawn_cards().len(), 0);
}

#[test]
fn play_drawn_pops_the_waste() {
    let mut deck = Deck::new();
    assert_eq!(deck.play_drawn(), None);
    let drawn = deck.draw().unwrap();
    let played = deck.play_drawn();
    assert_eq!(played, Some(drawn));
    assert_eq!(deck.get_drawn_cards().len(), 0);
}

#[test]
fn reset_reverses_the_drawn_order() {
    let mut deck = Deck::new();
    let mut order: Vec<Card> = Vec::new();
    while let Some(c) = deck.draw() {
        order.push(c);
    }
    deck.reset();
    let mut expected = order.clone();
    expected.reverse();
    assert_eq!(deck.get_cards(), &expected);
}

#[test]
fn front_asset_names_follow_suit_and_rank() {
    let c = Card {
        rank: Rank::Ace,
        suit: Suit::Clubs,
        flipped: false,
    };
    assert_eq!(c.asset(), "clubs_ace.png");
    let c = Card {
        rank: Rank::Ten,
        suit: Suit::Hearts,
        flipped: false,
    };
    assert_eq!(c.asset(), "hearts_10.png");
    let c = Card {
        rank: Rank::Queen,
        suit: Suit::Spades,
        flipped: true,
    };
    assert_eq!(c.asset(), "spades_queen.png");
    let c = Card {
        rank: Rank::Two,
        suit: Suit::Diamonds,
        flipped: false,
    };
    assert_eq!(c.asset(), "diamonds_02.png");
}

#[test]
fn back_asset_is_the_shared_back_image() {
    let c = Card {
        rank: Rank::King,
        suit: Suit::Hearts,
        flipped: true,
    };
    assert_eq!(c.back_asset(), "back01.png");
}

#[test]
fn display_asset_follows_the_flip_state() {
    let mut c = Card {
        rank: Rank::Jack,
        suit: Suit::Diamonds,
        flipped: true,
    };
    assert_eq!(c.display_asset(), "back01.png");
    c.flipped = false;
    assert_eq!(c.display_asset(), "diamonds_jack.png");
}

#[test]
fn cards_with_different_flip_state_are_not_equal() {
    let a = Card {
        rank: Rank::Ace,
        suit: Suit::Clubs,
        flipped: false,
    };
    let b = Card {
        rank: Rank::Ace,
        suit: Suit::Clubs,
        flipped: true,
    };
    assert_ne!(a, b);
    assert_eq!(a, a);
}
