use vstd::prelude::*;
use vstd::string::StringExecFns;

verus! {

/// The name of a suit, for a suit index below four.
pub open spec fn suit_name(s: int) -> Seq<char> {
    if s == 0 {
        "hearts"@
    } else if s == 1 {
        "spades"@
    } else if s == 2 {
        "clubs"@
    } else {
        "diamonds"@
    }
}

/// The name of a card value, for a value index below thirteen.
pub open spec fn value_name(v: int) -> Seq<char> {
    if v == 0 {
        "ace"@
    } else if v == 1 {
        "two"@
    } else if v == 2 {
        "three"@
    } else if v == 3 {
        "four"@
    } else if v == 4 {
        "five"@
    } else if v == 5 {
        "six"@
    } else if v == 6 {
        "seven"@
    } else if v == 7 {
        "eight"@
    } else if v == 8 {
        "nine"@
    } else if v == 9 {
        "ten"@
    } else if v == 10 {
        "jack"@
    } else if v == 11 {
        "queen"@
    } else {
        "king"@
    }
}

/// The label of one card: "<value> of <suit>".
pub open spec fn card_label(s: int, v: int) -> Seq<char> {
    value_name(v) + " of "@ + suit_name(s)
}

/// The 52 card labels in generation order: suit-major, value-minor.
pub open spec fn deck_init() -> Seq<Seq<char>> {
    Seq::new(52, |i: int| card_label(i / 13, i % 13))
}

fn suit_str(s: usize) -> (r: &'static str)
    requires
        s < 4,
    ensures
        r@ == suit_name(s as int),
{
    if s == 0 {
        "hearts"
    } else if s == 1 {
        "spades"
    } else if s == 2 {
        "clubs"
    } else {
        "diamonds"
    }
}

fn value_str(v: usize) -> (r: &'static str)
    requires
        v < 13,
    ensures
        r@ == value_name(v as int),
{
    if v == 0 {
        "ace"
    } else if v == 1 {
        "two"
    } else if v == 2 {
        "three"
    } else if v == 3 {
        "four"
    } else if v == 4 {
        "five"
    } else if v == 5 {
        "six"
    } else if v == 6 {
        "seven"
    } else if v == 7 {
        "eight"
    } else if v == 8 {
        "nine"
    } else if v == 9 {
        "ten"
    } else if v == 10 {
        "jack"
    } else if v == 11 {
        "queen"
    } else {
        "king"
    }
}

/// No card value name contains a space, so the first space of a card
/// label sits right after the value name.
proof fn lemma_value_name_no_space(v: int)
    requires
        0 <= v < 13,
    ensures
        forall|k: int| 0 <= k < value_name(v).len() ==> value_name(v)[k] != ' ',
{
    reveal_strlit("ace");
    reveal_strlit("two");
    reveal_strlit("three");
    reveal_strlit("four");
    reveal_strlit("five");
    reveal_strlit("six");
    reveal_strlit("seven");
    reveal_strlit("eight");
    reveal_strlit("nine");
    reveal_strlit("ten");
    reveal_strlit("jack");
    reveal_strlit("queen");
    reveal_strlit("king");
}

/// The thirteen value names are pairwise distinct: each is told apart
/// from the others by its length and its first two characters.
proof fn lemma_value_names_distinct()
    ensures
        forall|a: int, b: int|
            0 <= a < 13 && 0 <= b < 13 && a != b ==> value_name(a) != value_name(b),
{
    reveal_strlit("ace");
    reveal_strlit("two");
    reveal_strlit("three");
    reveal_strlit("four");
    reveal_strlit("five");
    reveal_strlit("six");
    reveal_strlit("seven");
    reveal_strlit("eight");
    reveal_strlit("nine");
    reveal_strlit("ten");
    reveal_strlit("jack");
    reveal_strlit("queen");
    reveal_strlit("king");
    assert forall|a: int, b: int|
        0 <= a < 13 && 0 <= b < 13 && a != b implies value_name(a) != value_name(b) by {
        let x = value_name(a);
        let y = value_name(b);
        if x == y {
            assert(x.len() == y.len() && x[0] == y[0] && x[1] == y[1]);
            assert(false);
        }
    }
}

/// The four suit names are pairwise distinct: their first characters
/// already differ.
proof fn lemma_suit_names_distinct()
    ensures
        forall|a: int, b: int|
            0 <= a < 4 && 0 <= b < 4 && a != b ==> suit_name(a) != suit_name(b),
{
    reveal_strlit("hearts");
    reveal_strlit("spades");
    reveal_strlit("clubs");
    reveal_strlit("diamonds");
    assert forall|a: int, b: int|
        0 <= a < 4 && 0 <= b < 4 && a != b implies suit_name(a) != suit_name(b) by {
        let x = suit_name(a);
        let y = suit_name(b);
        if x == y {
            assert(x[0] == y[0]);
            assert(false);
        }
    }
}

/// Two card labels coincide only for the same suit and the same value:
/// the label determines the card.
pub proof fn lemma_card_label_injective(s1: int, v1: int, s2: int, v2: int)
    requires
        0 <= s1 < 4,
        0 <= v1 < 13,
        0 <= s2 < 4,
        0 <= v2 < 13,
        card_label(s1, v1) == card_label(s2, v2),
    ensures
        s1 == s2,
        v1 == v2,
{
    lemma_value_name_no_space(v1);
    lemma_value_name_no_space(v2);
    lemma_value_names_distinct();
    lemma_suit_names_distinct();
    reveal_strlit(" of ");
    let l1 = card_label(s1, v1);
    let l2 = card_label(s2, v2);
    let n1: int = value_name(v1).len() as int;
    let n2: int = value_name(v2).len() as int;
    assert(l1[n1] == ' ');
    assert(l2[n2] == ' ');
    if n1 < n2 {
        assert(l2[n1] == value_name(v2)[n1]);
        assert(false);
    }
    if n2 < n1 {
        assert(l1[n2] == value_name(v1)[n2]);
        assert(false);
    }
    assert(value_name(v1) =~= value_name(v2)) by {
        assert forall|k: int| 0 <= k < n1 implies value_name(v1)[k] == value_name(v2)[k] by {
            assert(l1[k] == value_name(v1)[k]);
            assert(l2[k] == value_name(v2)[k]);
        }
    }
    assert(l1.len() == n1 + 4 + suit_name(s1).len());
    assert(l2.len() == n2 + 4 + suit_name(s2).len());
    assert(suit_name(s1).len() == suit_name(s2).len());
    assert(suit_name(s1) =~= suit_name(s2)) by {
        assert forall|k: int| 0 <= k < suit_name(s1).len() implies suit_name(s1)[k] == suit_name(
            s2,
        )[k] by {
            assert(l1[n1 + 4 + k] == suit_name(s1)[k]);
            assert(l2[n1 + 4 + k] == suit_name(s2)[k]);
        }
    }
}

/// The freshly generated deck holds exactly 52 cards, each the label of
/// one suit-and-value combination, with no duplicates.
pub proof fn lemma_deck_cards_unique()
    ensures
        deck_init().len() == 52,
        forall|i: int, j: int| 0 <= i < j < 52 ==> deck_init()[i] != deck_init()[j],
        forall|i: int|
            0 <= i < 52 ==> deck_init()[i] == card_label(i / 13, i % 13) && 0 <= i / 13 < 4 && 0
                <= i % 13 < 13,
{
    assert forall|i: int, j: int| 0 <= i < j < 52 implies deck_init()[i] != deck_init()[j] by {
        if deck_init()[i] == deck_init()[j] {
            lemma_card_label_injective(i / 13, i % 13, j / 13, j % 13);
            assert(i == 13 * (i / 13) + i % 13);
            assert(j == 13 * (j / 13) + j % 13);
            assert(false);
        }
    }
}

/// An ordered sequence of card labels. Created fully populated with the
/// 52 suit-and-value combinations; shuffling permutes it in place;
/// dealing removes a suffix.
pub struct Deck {
    pub cards: Vec<String>,
}

/// Relies on rand's `SliceRandom::shuffle` with `thread_rng`: a
/// Fisher-Yates shuffle, which reorders the slice in place by swaps and
/// so keeps exactly the same elements.
#[verifier::external_body]
fn shuffle_strings(cards: &mut Vec<String>)
    ensures
        final(cards)@.len() == old(cards)@.len(),
        final(cards)@.to_multiset() == old(cards)@.to_multiset(),
{
    let mut rng = rand::thread_rng();
    rand::seq::SliceRandom::shuffle(cards.as_mut_slice(), &mut rng);
}

impl Deck {
    /// The card labels held, in order.
    pub open spec fn labels(&self) -> Seq<Seq<char>> {
        self.cards@.map_values(|c: String| c@)
    }

    /// Builds the full deck: all 52 combinations in generation order.
    pub fn new() -> (d: Deck)
        ensures
            d.cards@.len() == 52,
            d.labels() == deck_init(),
    {
        let mut cards: Vec<String> = Vec::new();
        for k in 0..52usize
            invariant
                cards@.len() == k,
                forall|i: int| 0 <= i < k ==> cards@[i]@ == card_label(i / 13, i % 13),
        {
            let s: usize = k / 13;
            let v: usize = k % 13;
            let card = String::from_str(value_str(v)).concat(" of ").concat(suit_str(s));
            cards.push(card);
        }
        let d = Deck { cards };
        proof {
            assert(d.labels() =~= deck_init());
        }
        d
    }

    /// Randomly permutes the deck in place: the multiset of cards is
    /// unchanged, and so is the size.
    pub fn shuffle(&mut self)
        ensures
            final(self).cards@.to_multiset() == old(self).cards@.to_multiset(),
            final(self).cards@.len() == old(self).cards@.len(),
    {
        shuffle_strings(&mut self.cards);
    }

    /// Removes and returns the last `num_card` cards, in their deck
    /// order; the deck shrinks by `num_card`.
    pub fn deal(&mut self, num_card: usize) -> (hand: Vec<String>)
        requires
            num_card <= old(self).cards@.len(),
        ensures
            final(self).cards@ == old(self).cards@.subrange(
                0,
                old(self).cards@.len() - num_card as int,
            ),
            hand@ == old(self).cards@.subrange(
                old(self).cards@.len() - num_card as int,
                old(self).cards@.len() as int,
            ),
    {
        let at: usize = self.cards.len() - num_card;
        self.cards.split_off(at)
    }
}

} // verus!
