//! Cards, decks and the game of War that serves as the unit of work.
use rand::rngs::ThreadRng;
use vstd::prelude::*;
use vstd::string::StringExecFns;

verus! {

/// The value of a card.
#[derive(Clone, Copy, PartialEq, Eq, Structural, Debug)]
pub enum Value {
    Two,
    Three,
    Four,
    Five,
    Six,
    Seven,
    Eight,
    Nine,
    Ten,
    Jack,
    Queen,
    King,
    Ace,
}

/// The suit of a card. War ignores it; it only tells the four copies of a
/// value apart.
#[derive(Clone, Copy, PartialEq, Eq, Structural, Debug)]
pub enum Suit {
    Clubs,
    Hearts,
    Diamonds,
    Spades,
}

/// The numeric worth of a value: 2 for `Two` up to 14 for `Ace`.
pub open spec fn value_rank(v: Value) -> int {
    match v {
        Value::Two => 2,
        Value::Three => 3,
        Value::Four => 4,
        Value::Five => 5,
        Value::Six => 6,
        Value::Seven => 7,
        Value::Eight => 8,
        Value::Nine => 9,
        Value::Ten => 10,
        Value::Jack => 11,
        Value::Queen => 12,
        Value::King => 13,
        Value::Ace => 14,
    }
}

/// The value at position `j` of a suit, in the order `Two`, ..., `Ace`.
pub open spec fn value_at(j: int) -> Value {
    if j == 0 {
        Value::Two
    } else if j == 1 {
        Value::Three
    } else if j == 2 {
        Value::Four
    } else if j == 3 {
        Value::Five
    } else if j == 4 {
        Value::Six
    } else if j == 5 {
        Value::Seven
    } else if j == 6 {
        Value::Eight
    } else if j == 7 {
        Value::Nine
    } else if j == 8 {
        Value::Ten
    } else if j == 9 {
        Value::Jack
    } else if j == 10 {
        Value::Queen
    } else if j == 11 {
        Value::King
    } else {
        Value::Ace
    }
}

/// The suit of the `i`-th block of thirteen cards of a fresh deck.
pub open spec fn suit_at(i: int) -> Suit {
    if i == 0 {
        Suit::Spades
    } else if i == 1 {
        Suit::Hearts
    } else if i == 2 {
        Suit::Diamonds
    } else {
        Suit::Clubs
    }
}

/// The 52 cards of a fresh deck: each suit in turn, each value in order.
pub open spec fn fresh_deck() -> Seq<Card> {
    Seq::new(52, |k: int| Card { value: value_at(k % 13), suit: suit_at(k / 13) })
}

/// The last cards of `s` in the opposite order.
pub open spec fn reversed(s: Seq<Card>) -> Seq<Card> {
    Seq::new(s.len(), |i: int| s[s.len() - 1 - i])
}

fn value_from_index(j: usize) -> (v: Value)
    requires
        j < 13,
    ensures
        v == value_at(j as int),
{
    match j {
        0 => Value::Two,
        1 => Value::Three,
        2 => Value::Four,
        3 => Value::Five,
        4 => Value::Six,
        5 => Value::Seven,
        6 => Value::Eight,
        7 => Value::Nine,
        8 => Value::Ten,
        9 => Value::Jack,
        10 => Value::Queen,
        11 => Value::King,
        _ => Value::Ace,
    }
}

fn suit_from_index(i: usize) -> (s: Suit)
    requires
        i < 4,
    ensures
        s == suit_at(i as int),
{
    match i {
        0 => Suit::Spades,
        1 => Suit::Hearts,
        2 => Suit::Diamonds,
        _ => Suit::Clubs,
    }
}

/// The name of a value as printed on a card.
pub open spec fn value_name(v: Value) -> Seq<char> {
    match v {
        Value::Two => "2"@,
        Value::Three => "3"@,
        Value::Four => "4"@,
        Value::Five => "5"@,
        Value::Six => "6"@,
        Value::Seven => "7"@,
        Value::Eight => "8"@,
        Value::Nine => "9"@,
        Value::Ten => "10"@,
        Value::Jack => "Jack"@,
        Value::Queen => "Queen"@,
        Value::King => "King"@,
        Value::Ace => "Ace"@,
    }
}

/// The name of a suit.
pub open spec fn suit_name(s: Suit) -> Seq<char> {
    match s {
        Suit::Clubs => "Clubs"@,
        Suit::Hearts => "Hearts"@,
        Suit::Diamonds => "Diamonds"@,
        Suit::Spades => "Spades"@,
    }
}

/// A card as text: `Ace of Spades`.
pub open spec fn card_text(c: Card) -> Seq<char> {
    value_name(c.value) + " of "@ + suit_name(c.suit)
}

/// The cards as text, separated by `, `.
pub open spec fn cards_text(s: Seq<Card>) -> Seq<char>
    decreases s.len(),
{
    if s.len() == 0 {
        Seq::empty()
    } else if s.len() == 1 {
        card_text(s[0])
    } else {
        cards_text(s.drop_last()) + ", "@ + card_text(s.last())
    }
}

impl Value {
    /// The name of the value as printed on a card.
    pub fn name(&self) -> (r: &'static str)
        ensures
            r@ == value_name(*self),
    {
        match self {
            Value::Two => "2",
            Value::Three => "3",
            Value::Four => "4",
            Value::Five => "5",
            Value::Six => "6",
            Value::Seven => "7",
            Value::Eight => "8",
            Value::Nine => "9",
            Value::Ten => "10",
            Value::Jack => "Jack",
            Value::Queen => "Queen",
            Value::King => "King",
            Value::Ace => "Ace",
        }
    }
}

impl Suit {
    /// The name of the suit.
    pub fn name(&self) -> (r: &'static str)
        ensures
            r@ == suit_name(*self),
    {
        match self {
            Suit::Clubs => "Clubs",
            Suit::Hearts => "Hearts",
            Suit::Diamonds => "Diamonds",
            Suit::Spades => "Spades",
        }
    }
}

/// A playing card. Only its value takes part in the game.
#[derive(Clone, Copy, Debug)]
pub struct Card {
    pub value: Value,
    pub suit: Suit,
}

impl Card {
    /// A card of the given value and suit.
    pub fn new(value: Value, suit: Suit) -> (r: Card)
        ensures
            r.value == value,
            r.suit == suit,
    {
        Card { value: value, suit: suit }
    }

    /// The card's value as a number from 2 to 14.
    pub fn get_value(&self) -> (r: i32)
        ensures
            r == value_rank(self.value),
    {
        match self.value {
            Value::Two => 2,
            Value::Three => 3,
            Value::Four => 4,
            Value::Five => 5,
            Value::Six => 6,
            Value::Seven => 7,
            Value::Eight => 8,
            Value::Nine => 9,
            Value::Ten => 10,
            Value::Jack => 11,
            Value::Queen => 12,
            Value::King => 13,
            Value::Ace => 14,
        }
    }
}

impl Card {
    /// The card as text, such as `Ace of Spades`.
    pub fn text(&self) -> (r: String)
        ensures
            r@ == card_text(*self),
    {
        let mut r = String::from_str(self.value.name());
        r.append(" of ");
        r.append(self.suit.name());
        r
    }
}

/// Cards are equal when their values are, whatever their suits.
impl PartialEq for Card {
    fn eq(&self, other: &Card) -> (r: bool)
        ensures
            r == (value_rank(self.value) == value_rank(other.value)),
    {
        self.get_value() == other.get_value()
    }
}

impl vstd::std_specs::cmp::PartialEqSpecImpl for Card {
    open spec fn obeys_eq_spec() -> bool {
        true
    }

    open spec fn eq_spec(&self, other: &Card) -> bool {
        value_rank(self.value) == value_rank(other.value)
    }
}

/// Cards are ordered by their values.
impl PartialOrd for Card {
    fn partial_cmp(&self, other: &Card) -> (r: Option<std::cmp::Ordering>)
        ensures
            r == card_order(*self, *other),
    {
        let v1 = self.get_value();
        let v2 = other.get_value();
        if v1 < v2 {
            Some(std::cmp::Ordering::Less)
        } else if v1 > v2 {
            Some(std::cmp::Ordering::Greater)
        } else {
            Some(std::cmp::Ordering::Equal)
        }
    }
}

/// How two cards compare: by value alone.
pub open spec fn card_order(a: Card, b: Card) -> Option<std::cmp::Ordering> {
    if value_rank(a.value) < value_rank(b.value) {
        Some(std::cmp::Ordering::Less)
    } else if value_rank(a.value) > value_rank(b.value) {
        Some(std::cmp::Ordering::Greater)
    } else {
        Some(std::cmp::Ordering::Equal)
    }
}

impl vstd::std_specs::cmp::PartialOrdSpecImpl for Card {
    open spec fn obeys_partial_cmp_spec() -> bool {
        true
    }

    open spec fn partial_cmp_spec(&self, other: &Card) -> Option<std::cmp::Ordering> {
        card_order(*self, *other)
    }
}


#[verifier::external_type_specification]
#[verifier::external_body]
pub struct ExThreadRng(ThreadRng);

/// Relies on rand's `SliceRandom::shuffle` (a Fisher-Yates shuffle that only
/// swaps elements): the cards come back in some order, none lost or added.
#[verifier::external_body]
fn shuffle_cards(cards: &mut Vec<Card>, rng: &mut ThreadRng)
    ensures
        final(cards)@.to_multiset() == old(cards)@.to_multiset(),
{
    rand::seq::SliceRandom::shuffle(cards.as_mut_slice(), rng)
}

/// A pile of cards; index 0 is the top.
pub struct Deck(Vec<Card>);

impl View for Deck {
    type V = Seq<Card>;

    closed spec fn view(&self) -> Seq<Card> {
        self.0@
    }
}

impl Deck {
    /// A fresh deck of the 52 regular cards, suit after suit.
    pub fn new_fresh_deck() -> (r: Deck)
        ensures
            r@ == fresh_deck(),
    {
        let mut cards: Vec<Card> = Vec::with_capacity(52);
        let mut i: usize = 0;
        while i < 4
            invariant
                i <= 4,
                cards@ == fresh_deck().subrange(0, 13 * i as int),
            decreases 4 - i,
        {
            let suit = suit_from_index(i);
            let mut j: usize = 0;
            while j < 13
                invariant
                    i < 4,
                    j <= 13,
                    suit == suit_at(i as int),
                    cards@ == fresh_deck().subrange(0, 13 * i + j),
                decreases 13 - j,
            {
                cards.push(Card::new(value_from_index(j), suit));
                proof {
                    let k = 13 * i + j;
                    assert(k % 13 == j as int && k / 13 == i as int) by (nonlinear_arith)
                        requires
                            k == 13 * i + j,
                            j < 13,
                    ;
                    assert(cards@ =~= fresh_deck().subrange(0, k + 1));
                }
                j = j + 1;
            }
            i = i + 1;
        }
        assert(cards@ =~= fresh_deck());
        Deck(cards)
    }

    /// An empty deck with room for 52 cards.
    pub fn new() -> (r: Deck)
        ensures
            r@ == Seq::<Card>::empty(),
    {
        Deck(Vec::with_capacity(52))
    }

    /// Takes the bottom half of the deck (rounded down) off it, one card at
    /// a time from the bottom, and returns those cards as a new deck: its top
    /// card is the one that was at the bottom.
    pub fn split(&mut self) -> (r: Deck)
        ensures
            final(self)@ == old(self)@.subrange(0, old(self)@.len() - old(self)@.len() / 2),
            r@ == reversed(
                old(self)@.subrange(old(self)@.len() - old(self)@.len() / 2, old(self)@.len() as int),
            ),
    {
        let length = self.0.len();
        let half = length / 2;
        let mut taken: Vec<Card> = Vec::with_capacity(52);
        let mut k: usize = 0;
        while k < half
            invariant
                half == length / 2,
                length == old(self)@.len(),
                k <= half,
                self@ == old(self)@.subrange(0, length - k),
                taken@ == reversed(old(self)@.subrange(length - k, length as int)),
            decreases half - k,
        {
            let c = self.0.pop().unwrap();
            taken.push(c);
            k = k + 1;
            assert(self@ =~= old(self)@.subrange(0, length - k));
            assert(taken@ =~= reversed(old(self)@.subrange(length - k, length as int)));
        }
        Deck(taken)
    }

    /// Puts the cards of the deck in a random order.
    pub fn shuffle(&mut self, rng: &mut ThreadRng)
        ensures
            final(self)@.to_multiset() == old(self)@.to_multiset(),
            final(self)@.len() == old(self)@.len(),
    {
        shuffle_cards(&mut self.0, rng);
        proof {
            vstd::seq_lib::to_multiset_len(old(self)@);
            vstd::seq_lib::to_multiset_len(self@);
        }
    }

    /// The number of cards in the deck.
    pub fn length(&self) -> (r: usize)
        ensures
            r == self@.len(),
    {
        self.0.len()
    }

    /// Whether the deck holds any card.
    pub fn has_cards(&self) -> (r: bool)
        ensures
            r == (self@.len() > 0),
    {
        self.0.len() > 0
    }

    /// The top card of the deck, which stays in it.
    pub fn get_card(&self) -> (r: Card)
        requires
            self@.len() > 0,
        ensures
            r == self@[0],
    {
        self.0[0]
    }

    /// Moves the top card of this deck to the bottom of `deck`; does nothing
    /// when this deck is empty.
    pub fn give_card(&mut self, deck: &mut Deck)
        ensures
            old(self)@.len() == 0 ==> final(self)@ == old(self)@ && final(deck)@ == old(deck)@,
            old(self)@.len() > 0 ==> final(self)@ == old(self)@.drop_first() && final(deck)@
                == old(deck)@.push(old(self)@[0]),
    {
        if self.0.len() == 0 {
            return;
        }
        let card = self.0.remove(0);
        deck.0.push(card);
    }

    /// The cards from the top down as text, separated by `, `.
    pub fn text(&self) -> (r: String)
        ensures
            r@ == cards_text(self@),
    {
        let mut r = String::new();
        let mut i: usize = 0;
        while i < self.0.len()
            invariant
                i <= self@.len(),
                r@ == cards_text(self@.subrange(0, i as int)),
            decreases self@.len() - i,
        {
            if i > 0 {
                r.append(", ");
            }
            let t = self.0[i].text();
            r.append(t.as_str());
            proof {
                let s1 = self@.subrange(0, i + 1);
                assert(s1.drop_last() =~= self@.subrange(0, i as int));
                assert(s1.last() == self@[i as int]);
                if i == 0 {
                    assert(s1.len() == 1);
                    assert(r@ =~= card_text(s1[0]));
                } else {
                    assert(r@ =~= cards_text(s1));
                }
            }
            i = i + 1;
        }
        assert(self@.subrange(0, self@.len() as int) =~= self@);
        r
    }

    /// Moves every card of this deck, top first, to the bottom of `deck`.
    pub fn give_cards(&mut self, deck: &mut Deck)
        ensures
            final(self)@ == Seq::<Card>::empty(),
            final(deck)@ == old(deck)@ + old(self)@,
    {
        let n = self.length();
        let mut k: usize = 0;
        while k < n
            invariant
                n == old(self)@.len(),
                k <= n,
                self@ == old(self)@.subrange(k as int, n as int),
                deck@ == old(deck)@ + old(self)@.subrange(0, k as int),
            decreases n - k,
        {
            self.give_card(deck);
            k = k + 1;
            assert(self@ =~= old(self)@.subrange(k as int, n as int));
            assert(deck@ =~= old(deck)@ + old(self)@.subrange(0, k as int));
        }
        assert(self@ =~= Seq::<Card>::empty());
        assert(old(self)@.subrange(0, n as int) =~= old(self)@);
    }
}


/// How a game of War ended.
#[derive(Clone, Copy, Debug)]
pub struct GameOutcome {
    /// The number of turns played.
    pub turns: u64,
    /// The cards left to the first player.
    pub first: usize,
    /// The cards left to the second player.
    pub second: usize,
    /// The cards still in the pot, won by nobody.
    pub pot: usize,
}

/// Plays one game of War, shuffling with `rng`.
///
/// The shuffled deck is split between two players. Each turn both put their
/// top card in the pot; the higher card takes the shuffled pot to the bottom
/// of its owner's deck. On equal cards there is a war: each player adds three
/// more cards and a new top card, and the higher of those takes the pot; on
/// equal cards again the war goes on. The game ends when a player has no card
/// left, or cannot fight a war for want of four cards. The turn counter
/// never wraps: the game stops when it is full.
pub fn game(rng: &mut ThreadRng) -> (r: GameOutcome)
    ensures
        r.first + r.second + r.pot == 52,
        r.turns >= 1,
        r.first == 0 || r.second == 0 || r.first < 4 || r.second < 4 || r.turns == u64::MAX,
{
    let mut player1 = Deck::new_fresh_deck();
    player1.shuffle(rng);
    let mut player2 = player1.split();
    let mut turns: u64 = 0;
    let mut winner = Deck::new();
    let mut short_of_cards = false;
    while !short_of_cards && player1.has_cards() && player2.has_cards() && turns < u64::MAX
        invariant
            player1@.len() + player2@.len() + winner@.len() == 52,
            short_of_cards ==> (player1@.len() < 4 || player2@.len() < 4),
            turns >= 1 || (player1@.len() == 26 && player2@.len() == 26),
        decreases u64::MAX - turns,
    {
        turns = turns + 1;
        let mut card1 = player1.get_card();
        let mut card2 = player2.get_card();
        player1.give_card(&mut winner);
        player2.give_card(&mut winner);
        if card1 == card2 {
            let mut at_war = true;
            while at_war && !short_of_cards
                invariant
                    player1@.len() + player2@.len() + winner@.len() == 52,
                    short_of_cards ==> (player1@.len() < 4 || player2@.len() < 4),
                decreases
                    if at_war && !short_of_cards {
                        player1@.len() + 1
                    } else {
                        0
                    },
            {
                if player1.length() < 4 || player2.length() < 4 {
                    short_of_cards = true;
                } else {
                    let ghost len1 = player1@.len();
                    let mut k: usize = 0;
                    while k < 3
                        invariant
                            k <= 3,
                            player1@.len() + player2@.len() + winner@.len() == 52,
                            player1@.len() >= 4 - k,
                            player2@.len() >= 4 - k,
                            player1@.len() == len1 - k,
                        decreases 3 - k,
                    {
                        player1.give_card(&mut winner);
                        player2.give_card(&mut winner);
                        k = k + 1;
                    }
                    card1 = player1.get_card();
                    card2 = player2.get_card();
                    player1.give_card(&mut winner);
                    player2.give_card(&mut winner);
                    if card1 < card2 {
                        winner.shuffle(rng);
                        winner.give_cards(&mut player2);
                    } else if card1 > card2 {
                        winner.shuffle(rng);
                        winner.give_cards(&mut player1);
                    }
                    at_war = card1 == card2;
                }
            }
        } else if card1 < card2 {
            winner.shuffle(rng);
            winner.give_cards(&mut player2);
        } else {
            winner.shuffle(rng);
            winner.give_cards(&mut player1);
        }
    }
    GameOutcome {
        turns: turns,
        first: player1.length(),
        second: player2.length(),
        pot: winner.length(),
    }
}

} // verus!
