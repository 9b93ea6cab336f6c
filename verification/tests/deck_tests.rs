use card_ledger::deck::Deck;

#[test]
fn deck_has_52_unique_cards() {
    let d = Deck::new();
    assert_eq!(d.cards.len(), 52);
    for i in 0..52 {
        for j in (i + 1)..52 {
            assert_ne!(d.cards[i], d.cards[j]);
        }
    }
}

#[test]
fn deck_generation_order_is_suit_major() {
    let d = Deck::new();
    assert_eq!(d.cards[0], "ace of hearts");
    assert_eq!(d.cards[12], "king of hearts");
    assert_eq!(d.cards[13], "ace of spades");
    assert_eq!(d.cards[26], "ace of clubs");
    assert_eq!(d.cards[39], "ace of diamonds");
    assert_eq!(d.cards[51], "king of diamonds");
}

#[test]
fn every_card_pairs_a_suit_with_a_value() {
    let suits = ["hearts", "spades", "clubs", "diamonds"];
    let values = [
        "ace", "two", "three", "four", "five", "six", "seven", "eight", "nine", "ten", "jack",
        "queen", "king",
    ];
    let d = Deck::new();
    let mut k: usize = 0;
    for suit in suits {
        for value in values {
            assert_eq!(d.cards[k], format!("{} of {}", value, suit));
            k += 1;
        }
    }
}

#[test]
fn shuffle_is_a_permutation() {
    let mut d = Deck::new();
    let mut before = d.cards.clone();
    d.shuffle();
    let mut after = d.cards.clone();
    assert_eq!(after.len(), 52);
    before.sort();
    after.sort();
    assert_eq!(before, after);
}

#[test]
fn deal_returns_the_last_cards_in_order() {
    let mut d = Deck::new();
    let expected: Vec<String> = d.cards[47..52].to_vec();
    let hand = d.deal(5);
    assert_eq!(hand, expected);
    assert_eq!(d.cards.len(), 47);
}

#[test]
fn deal_can_empty_the_deck() {
    let mut d = Deck::new();
    let hand = d.deal(52);
    assert_eq!(hand.len(), 52);
    assert_eq!(d.cards.len(), 0);
}
