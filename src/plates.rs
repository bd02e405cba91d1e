use core::cmp::Ordering;
use rand::seq::SliceRandom;
use vstd::prelude::*;
use vstd::std_specs::cmp::PartialOrdSpec;

verus! {

/// The suit of a card: the four standard suits and the two joker suits.
#[derive(Debug, Copy, Clone, PartialEq, Eq, Structural)]
pub enum PColor {
    /// 梅花, clubs
    Plum,
    /// 方块, diamonds
    Square,
    /// 红心, hearts
    Hearts,
    /// 黑桃, spades
    Spades,
    /// 小王, the small joker
    Queen,
    /// 大王, the big joker
    King,
}

/// The English name of a suit.
pub open spec fn color_en_name(c: PColor) -> Seq<char> {
    match c {
        PColor::Plum => "plum"@,
        PColor::Square => "square"@,
        PColor::Hearts => "hearts"@,
        PColor::Spades => "spades"@,
        PColor::Queen => "queen"@,
        PColor::King => "king"@,
    }
}

/// The Chinese name of a suit.
pub open spec fn color_name(c: PColor) -> Seq<char> {
    match c {
        PColor::Plum => "梅花"@,
        PColor::Square => "方块"@,
        PColor::Hearts => "红心"@,
        PColor::Spades => "黑桃"@,
        PColor::Queen => "小王"@,
        PColor::King => "大王"@,
    }
}

impl PColor {
    /// English name of the suit.
    pub fn en_string(&self) -> (r: &'static str)
        ensures
            r@ == color_en_name(*self),
    {
        match self {
            PColor::Plum => "plum",
            PColor::Square => "square",
            PColor::Hearts => "hearts",
            PColor::Spades => "spades",
            PColor::Queen => "queen",
            PColor::King => "king",
        }
    }

    /// Chinese name of the suit.
    pub fn string(&self) -> (r: &'static str)
        ensures
            r@ == color_name(*self),
    {
        match self {
            PColor::Plum => "梅花",
            PColor::Square => "方块",
            PColor::Hearts => "红心",
            PColor::Spades => "黑桃",
            PColor::Queen => "小王",
            PColor::King => "大王",
        }
    }
}

/// The rank of a card, from ace to king, then the two joker ranks.
/// Ranks are ordered by their ordinal.
#[derive(Debug, Copy, Clone, PartialEq, Eq, Structural, Ord)]
pub enum PValue {
    /// A
    CardA,
    /// 2
    Card2,
    /// 3
    Card3,
    /// 4
    Card4,
    /// 5
    Card5,
    /// 6
    Card6,
    /// 7
    Card7,
    /// 8
    Card8,
    /// 9
    Card9,
    /// 10
    Card10,
    /// J
    CardJ,
    /// Q
    CardQ,
    /// K
    CardK,
    /// Queen
    CardQueen,
    /// King
    CardKing,
}

/// The label of a rank.
pub open spec fn value_name(v: PValue) -> Seq<char> {
    match v {
        PValue::CardA => "A"@,
        PValue::Card2 => "2"@,
        PValue::Card3 => "3"@,
        PValue::Card4 => "4"@,
        PValue::Card5 => "5"@,
        PValue::Card6 => "6"@,
        PValue::Card7 => "7"@,
        PValue::Card8 => "8"@,
        PValue::Card9 => "9"@,
        PValue::Card10 => "10"@,
        PValue::CardJ => "J"@,
        PValue::CardQ => "Q"@,
        PValue::CardK => "K"@,
        PValue::CardQueen => "Queen"@,
        PValue::CardKing => "King"@,
    }
}

/// The ordinal of a rank, in 1..=15.
pub open spec fn value_ordinal(v: PValue) -> int {
    match v {
        PValue::CardA => 1,
        PValue::Card2 => 2,
        PValue::Card3 => 3,
        PValue::Card4 => 4,
        PValue::Card5 => 5,
        PValue::Card6 => 6,
        PValue::Card7 => 7,
        PValue::Card8 => 8,
        PValue::Card9 => 9,
        PValue::Card10 => 10,
        PValue::CardJ => 11,
        PValue::CardQ => 12,
        PValue::CardK => 13,
        PValue::CardQueen => 14,
        PValue::CardKing => 15,
    }
}

/// The rank whose ordinal is `n`, for `n` in 1..=15.
pub open spec fn value_of_ordinal(n: int) -> PValue
    recommends
        1 <= n <= 15,
{
    if n == 1 {
        PValue::CardA
    } else if n == 2 {
        PValue::Card2
    } else if n == 3 {
        PValue::Card3
    } else if n == 4 {
        PValue::Card4
    } else if n == 5 {
        PValue::Card5
    } else if n == 6 {
        PValue::Card6
    } else if n == 7 {
        PValue::Card7
    } else if n == 8 {
        PValue::Card8
    } else if n == 9 {
        PValue::Card9
    } else if n == 10 {
        PValue::Card10
    } else if n == 11 {
        PValue::CardJ
    } else if n == 12 {
        PValue::CardQ
    } else if n == 13 {
        PValue::CardK
    } else if n == 14 {
        PValue::CardQueen
    } else {
        PValue::CardKing
    }
}

/// Comparison of two ranks by their ordinals.
pub open spec fn compare_values(a: PValue, b: PValue) -> Ordering {
    if value_ordinal(a) < value_ordinal(b) {
        Ordering::Less
    } else if value_ordinal(a) == value_ordinal(b) {
        Ordering::Equal
    } else {
        Ordering::Greater
    }
}

/// Errors of this library.
#[derive(Debug, Copy, Clone, PartialEq, Eq, Structural)]
pub enum PlateError {
    /// A rank ordinal outside 1..=15.
    InvalidRankValue(u8),
}

impl PValue {
    /// Label of the rank: "A", "2" .. "10", "J", "Q", "K", "Queen", "King".
    pub fn string(&self) -> (r: &'static str)
        ensures
            r@ == value_name(*self),
    {
        match self {
            PValue::CardA => "A",
            PValue::Card2 => "2",
            PValue::Card3 => "3",
            PValue::Card4 => "4",
            PValue::Card5 => "5",
            PValue::Card6 => "6",
            PValue::Card7 => "7",
            PValue::Card8 => "8",
            PValue::Card9 => "9",
            PValue::Card10 => "10",
            PValue::CardJ => "J",
            PValue::CardQ => "Q",
            PValue::CardK => "K",
            PValue::CardQueen => "Queen",
            PValue::CardKing => "King",
        }
    }

    /// Ordinal of the rank, in 1..=15.
    pub fn value(&self) -> (r: u8)
        ensures
            r as int == value_ordinal(*self),
            1 <= r <= 15,
    {
        match self {
            PValue::CardA => 1,
            PValue::Card2 => 2,
            PValue::Card3 => 3,
            PValue::Card4 => 4,
            PValue::Card5 => 5,
            PValue::Card6 => 6,
            PValue::Card7 => 7,
            PValue::Card8 => 8,
            PValue::Card9 => 9,
            PValue::Card10 => 10,
            PValue::CardJ => 11,
            PValue::CardQ => 12,
            PValue::CardK => 13,
            PValue::CardQueen => 14,
            PValue::CardKing => 15,
        }
    }

    /// The rank with ordinal `n`; `n` must lie in 1..=15.
    fn of_value(n: u8) -> (r: PValue)
        requires
            1 <= n <= 15,
        ensures
            r == value_of_ordinal(n as int),
    {
        match n {
            1 => PValue::CardA,
            2 => PValue::Card2,
            3 => PValue::Card3,
            4 => PValue::Card4,
            5 => PValue::Card5,
            6 => PValue::Card6,
            7 => PValue::Card7,
            8 => PValue::Card8,
            9 => PValue::Card9,
            10 => PValue::Card10,
            11 => PValue::CardJ,
            12 => PValue::CardQ,
            13 => PValue::CardK,
            14 => PValue::CardQueen,
            _ => PValue::CardKing,
        }
    }

    /// The rank with ordinal `n`, or `InvalidRankValue(n)` when `n` is outside 1..=15.
    pub fn from_value(n: u8) -> (r: Result<PValue, PlateError>)
        ensures
            1 <= n <= 15 ==> r == Ok::<PValue, PlateError>(value_of_ordinal(n as int)),
            !(1 <= n <= 15) ==> r == Err::<PValue, PlateError>(PlateError::InvalidRankValue(n)),
    {
        if 1 <= n && n <= 15 {
            Ok(PValue::of_value(n))
        } else {
            Err(PlateError::InvalidRankValue(n))
        }
    }
}

impl PartialOrd for PValue {
    fn partial_cmp(&self, other: &PValue) -> (r: Option<Ordering>) {
        let a = self.value();
        let b = other.value();
        if a < b {
            Some(Ordering::Less)
        } else if a == b {
            Some(Ordering::Equal)
        } else {
            Some(Ordering::Greater)
        }
    }
}

impl vstd::std_specs::cmp::PartialOrdSpecImpl for PValue {
    open spec fn obeys_partial_cmp_spec() -> bool {
        true
    }

    open spec fn partial_cmp_spec(&self, other: &PValue) -> Option<Ordering> {
        Some(compare_values(*self, *other))
    }
}

/// Every ordinal in 1..=15 names a rank whose ordinal it is.
pub proof fn lemma_ordinal_round_trip(n: int)
    requires
        1 <= n <= 15,
    ensures
        value_ordinal(value_of_ordinal(n)) == n,
{
}

/// Every rank has an ordinal in 1..=15, and that ordinal names the rank.
pub proof fn lemma_value_round_trip(v: PValue)
    ensures
        1 <= value_ordinal(v) <= 15,
        value_of_ordinal(value_ordinal(v)) == v,
{
}

/// One rank is below another exactly when its ordinal is smaller, and ranks
/// with equal ordinals are equal.
pub proof fn lemma_value_order(a: PValue, b: PValue)
    ensures
        a.partial_cmp_spec(&b) == Some(Ordering::Less) <==> value_ordinal(a) < value_ordinal(b),
        a.partial_cmp_spec(&b) == Some(Ordering::Equal) <==> a == b,
        a.partial_cmp_spec(&b) == Some(Ordering::Greater) <==> value_ordinal(a) > value_ordinal(b),
{
}

/// A card: a suit and a rank. Any pair can be built; the decks only hold
/// standard suits with ranks ace to king, and each joker suit with its own rank.
#[derive(Debug, Copy, Clone, PartialEq, Eq, Structural)]
pub struct Plate {
    pub pcolor: PColor,
    pub pvalue: PValue,
}

/// The text of a card: suit name, one space, rank label.
pub open spec fn plate_text(p: Plate) -> Seq<char> {
    color_name(p.pcolor) + " "@ + value_name(p.pvalue)
}

impl Plate {
    /// The card with the given suit and rank.
    pub fn new(pcolor: PColor, pvalue: PValue) -> (r: Self)
        ensures
            r.pcolor == pcolor,
            r.pvalue == pvalue,
    {
        Plate { pcolor, pvalue }
    }

    /// The card as text, such as "红心 A".
    pub fn string(&self) -> (r: String)
        ensures
            r@ == plate_text(*self),
    {
        let mut s = String::from_str(self.pcolor.string());
        s.append(" ");
        s.append(self.pvalue.string());
        s
    }
}

impl Default for Plate {
    /// The placeholder card, the two of hearts.
    fn default() -> (r: Self)
        ensures
            r == (Plate { pcolor: PColor::Hearts, pvalue: PValue::Card2 }),
    {
        Plate { pvalue: PValue::Card2, pcolor: PColor::Hearts }
    }
}

/// The position of a standard suit in the deal order Plum, Square, Hearts, Spades.
pub open spec fn color_index(c: PColor) -> int {
    match c {
        PColor::Plum => 0,
        PColor::Square => 1,
        PColor::Hearts => 2,
        PColor::Spades => 3,
        PColor::Queen => 4,
        PColor::King => 5,
    }
}

/// The standard suit at position `k` of the deal order, for `k` in 0..4.
pub open spec fn standard_color(k: int) -> PColor {
    if k == 0 {
        PColor::Plum
    } else if k == 1 {
        PColor::Square
    } else if k == 2 {
        PColor::Hearts
    } else {
        PColor::Spades
    }
}

/// Whether a suit is one of the four standard suits.
pub open spec fn is_standard_color(c: PColor) -> bool {
    c != PColor::Queen && c != PColor::King
}

/// Whether a card belongs in the 52-card deck: a standard suit with a rank
/// from ace to king.
pub open spec fn is_standard_plate(p: Plate) -> bool {
    is_standard_color(p.pcolor) && value_ordinal(p.pvalue) <= 13
}

/// The small joker, first card of the 54-card deck.
pub open spec fn small_joker() -> Plate {
    Plate { pcolor: PColor::Queen, pvalue: PValue::CardQueen }
}

/// The big joker, second card of the 54-card deck.
pub open spec fn big_joker() -> Plate {
    Plate { pcolor: PColor::King, pvalue: PValue::CardKing }
}

/// Card `i` of the 52-card deck: ranks ascend, and each rank comes in the
/// suit order Plum, Square, Hearts, Spades.
pub open spec fn standard_plate(i: int) -> Plate {
    Plate { pcolor: standard_color(i % 4), pvalue: value_of_ordinal(i / 4 + 1) }
}

/// The 52-card deck in its order after construction.
pub open spec fn standard_deck() -> Seq<Plate> {
    Seq::new(52, |i: int| standard_plate(i))
}

/// The 54-card deck in its order after construction: the two jokers, then
/// the 52 standard cards.
pub open spec fn joker_deck() -> Seq<Plate> {
    seq![small_joker(), big_joker()] + standard_deck()
}

/// The position in the 52-card deck of a standard card.
pub open spec fn plate_index(p: Plate) -> int {
    4 * (value_ordinal(p.pvalue) - 1) + color_index(p.pcolor)
}

proof fn lemma_standard_plate_index(i: int)
    requires
        0 <= i < 52,
    ensures
        plate_index(standard_plate(i)) == i,
        is_standard_plate(standard_plate(i)),
{
    lemma_ordinal_round_trip(i / 4 + 1);
}

proof fn lemma_standard_plate_of_index(p: Plate)
    requires
        is_standard_plate(p),
    ensures
        0 <= plate_index(p) < 52,
        standard_plate(plate_index(p)) == p,
{
    lemma_value_round_trip(p.pvalue);
    let k = plate_index(p);
    assert(k % 4 == color_index(p.pcolor));
    assert(k / 4 + 1 == value_ordinal(p.pvalue));
}

/// The 52-card deck has 52 cards, no two equal, and holds exactly the cards
/// of a standard suit with a rank from ace to king, each once.
pub proof fn lemma_standard_deck()
    ensures
        standard_deck().len() == 52,
        standard_deck().no_duplicates(),
        forall|p: Plate| #[trigger] standard_deck().contains(p) <==> is_standard_plate(p),
        forall|p: Plate|
            #[trigger] standard_deck().to_multiset().count(p) == if is_standard_plate(p) {
                1nat
            } else {
                0nat
            },
{
    let d = standard_deck();
    assert forall|i: int, j: int| 0 <= i < 52 && 0 <= j < 52 && i != j implies d[i] != d[j] by {
        lemma_standard_plate_index(i);
        lemma_standard_plate_index(j);
    }
    assert forall|p: Plate| #[trigger] d.contains(p) <==> is_standard_plate(p) by {
        if d.contains(p) {
            let i = choose|i: int| 0 <= i < 52 && d[i] == p;
            lemma_standard_plate_index(i);
        }
        if is_standard_plate(p) {
            lemma_standard_plate_of_index(p);
            assert(d[plate_index(p)] == p);
        }
    }
    d.lemma_multiset_has_no_duplicates();
    assert forall|p: Plate| #[trigger] d.to_multiset().count(p) == if is_standard_plate(p) {
        1nat
    } else {
        0nat
    } by {
        d.to_multiset_ensures();
    }
}

/// The 54-card deck has 54 cards, no two equal, starts with the small and
/// then the big joker, and holds exactly the two jokers and the standard
/// cards, each once.
pub proof fn lemma_joker_deck()
    ensures
        joker_deck().len() == 54,
        joker_deck()[0] == small_joker(),
        joker_deck()[1] == big_joker(),
        joker_deck().subrange(2, 54) == standard_deck(),
        joker_deck().no_duplicates(),
        forall|p: Plate|
            #[trigger] joker_deck().contains(p) <==> (is_standard_plate(p) || p == small_joker()
                || p == big_joker()),
        forall|p: Plate|
            #[trigger] joker_deck().to_multiset().count(p) == if is_standard_plate(p) || p
                == small_joker() || p == big_joker() {
                1nat
            } else {
                0nat
            },
{
    lemma_standard_deck();
    let j = seq![small_joker(), big_joker()];
    let s = standard_deck();
    let d = joker_deck();
    assert(j.no_duplicates());
    assert forall|a: int, b: int| 0 <= a < j.len() && 0 <= b < s.len() implies j[a] != s[b] by {
        assert(s.contains(s[b]));
    }
    vstd::seq_lib::lemma_no_dup_in_concat(j, s);
    assert(d.subrange(2, 54) =~= s);
    assert forall|p: Plate| #[trigger] d.contains(p) <==> (is_standard_plate(p) || p
        == small_joker() || p == big_joker()) by {
        if d.contains(p) {
            let i = choose|i: int| 0 <= i < 54 && d[i] == p;
            if i >= 2 {
                assert(s.contains(s[i - 2]));
            }
        }
        if is_standard_plate(p) {
            assert(s.contains(p));
            let k = choose|k: int| 0 <= k < 52 && s[k] == p;
            assert(d[k + 2] == p);
        }
        assert(d[0] == small_joker());
        assert(d[1] == big_joker());
    }
    d.lemma_multiset_has_no_duplicates();
    assert forall|p: Plate| #[trigger] d.to_multiset().count(p) == if is_standard_plate(p) || p
        == small_joker() || p == big_joker() {
        1nat
    } else {
        0nat
    } by {
        d.to_multiset_ensures();
    }
}

/// A reordering of a deck without duplicates, such as a shuffled deck, has
/// the same length, still has no duplicates, and holds the same cards.
pub proof fn lemma_reordered_deck(s: Seq<Plate>, d: Seq<Plate>)
    requires
        s.to_multiset() == d.to_multiset(),
        d.no_duplicates(),
    ensures
        s.len() == d.len(),
        s.no_duplicates(),
        forall|p: Plate| #[trigger] s.contains(p) <==> d.contains(p),
{
    s.to_multiset_ensures();
    d.to_multiset_ensures();
    d.lemma_multiset_has_no_duplicates();
    s.lemma_multiset_has_no_duplicates_conv();
    assert forall|p: Plate| #[trigger] s.contains(p) <==> d.contains(p) by {
        assert(s.contains(p) <==> s.to_multiset().count(p) > 0);
        assert(d.contains(p) <==> d.to_multiset().count(p) > 0);
    }
}

/// A deck: a sequence of cards in deal order.
#[derive(Debug, PartialEq, Eq)]
pub struct Plates {
    pub plates: Vec<Plate>,
}

impl View for Plates {
    type V = Seq<Plate>;

    open spec fn view(&self) -> Seq<Plate> {
        self.plates@
    }
}

/// The line of a card in the listing of a deck: suit name, two spaces,
/// rank label, line break.
pub open spec fn plate_line(p: Plate) -> Seq<char> {
    color_name(p.pcolor) + "  "@ + value_name(p.pvalue) + "\n"@
}

/// The listing of a sequence of cards: the line of each card, in order.
pub open spec fn deck_text(s: Seq<Plate>) -> Seq<char>
    decreases s.len(),
{
    if s.len() == 0 {
        Seq::empty()
    } else {
        deck_text(s.drop_last()) + plate_line(s.last())
    }
}

/// Relies on rand's `SliceRandom::shuffle` for slices, drawn from `thread_rng`:
/// it only swaps elements of the slice, at indices below its length, so the
/// cards come out as a permutation of those that went in. `thread_rng` panics
/// when the operating system's random source cannot seed it.
#[verifier::external_body]
fn shuffle_plates(v: &mut Vec<Plate>)
    ensures
        final(v)@.len() == old(v)@.len(),
        final(v)@.to_multiset() == old(v)@.to_multiset(),
{
    v.shuffle(&mut rand::thread_rng());
}

/// Appends the 52 standard cards, in deal order.
fn push_standard(plates: &mut Vec<Plate>)
    requires
        old(plates)@.len() <= 2,
    ensures
        final(plates)@ == old(plates)@ + standard_deck(),
{
    let ghost base = old(plates)@;
    let end: u8 = 14;
    let mut i: u8 = 1;
    while i < end
        invariant
            1 <= i <= 14,
            end == 14,
            plates@.len() == base.len() + 4 * (i - 1),
            plates@.subrange(0, base.len() as int) == base,
            forall|k: int|
                0 <= k < 4 * (i - 1) ==> #[trigger] plates@[base.len() + k] == standard_plate(k),
        decreases 14 - i,
    {
        let pvalue = PValue::of_value(i);
        let ghost prev = plates@;
        plates.push(Plate { pcolor: PColor::Plum, pvalue });
        plates.push(Plate { pcolor: PColor::Square, pvalue });
        plates.push(Plate { pcolor: PColor::Hearts, pvalue });
        plates.push(Plate { pcolor: PColor::Spades, pvalue });
        proof {
            let n = 4 * (i - 1);
            assert(plates@.subrange(0, base.len() as int) =~= prev.subrange(0, base.len() as int));
            assert forall|k: int| 0 <= k < n + 4 implies #[trigger] plates@[base.len() + k]
                == standard_plate(k) by {
                if k < n {
                    assert(plates@[base.len() + k] == prev[base.len() + k]);
                } else {
                    assert(k / 4 + 1 == i);
                }
            }
        }
        i = i + 1;
    }
    proof {
        let r = base + standard_deck();
        assert forall|k: int| 0 <= k < r.len() implies plates@[k] == r[k] by {
            if k < base.len() {
                assert(plates@[k] == plates@.subrange(0, base.len() as int)[k]);
            } else {
                assert(plates@[base.len() + (k - base.len())] == standard_plate(k - base.len()));
            }
        }
        assert(plates@ =~= r);
    }
}

impl Plates {
    /// The 52-card deck: for each rank from ace to king, the cards of
    /// Plum, Square, Hearts and Spades.
    pub fn new() -> (r: Self)
        ensures
            r@ == standard_deck(),
    {
        let mut plates: Vec<Plate> = Vec::new();
        push_standard(&mut plates);
        proof {
            assert(Seq::<Plate>::empty() + standard_deck() =~= standard_deck());
        }
        Plates { plates }
    }

    /// The 54-card deck: the small joker, the big joker, then the 52-card deck.
    pub fn new_with_queen_king() -> (r: Self)
        ensures
            r@ == joker_deck(),
    {
        let mut plates: Vec<Plate> = Vec::new();
        plates.push(Plate { pcolor: PColor::Queen, pvalue: PValue::of_value(14) });
        plates.push(Plate { pcolor: PColor::King, pvalue: PValue::of_value(15) });
        proof {
            assert(plates@ =~= seq![small_joker(), big_joker()]);
        }
        push_standard(&mut plates);
        Plates { plates }
    }

    /// Shuffles the deck in place with the thread's random generator; the
    /// deck keeps the same cards, each as often as before.
    pub fn random(&mut self) -> (r: &Plates)
        ensures
            final(self)@.len() == old(self)@.len(),
            final(self)@.to_multiset() == old(self)@.to_multiset(),
            r@ == final(self)@,
    {
        shuffle_plates(&mut self.plates);
        self
    }

    /// An independent copy of the deck, with the same cards in the same order.
    pub fn clone(&self) -> (r: Self)
        ensures
            r@ == self@,
    {
        Plates { plates: self.plates.clone() }
    }

    /// The listing of the deck: one line per card, in deal order, each
    /// "suit  rank" and a line break.
    pub fn to_string(&self) -> (r: String)
        ensures
            r@ == deck_text(self@),
    {
        let mut text = String::new();
        let mut i: usize = 0;
        while i < self.plates.len()
            invariant
                i <= self@.len(),
                text@ == deck_text(self@.take(i as int)),
            decreases self@.len() - i,
        {
            let p = self.plates[i];
            text.append(p.pcolor.string());
            text.append("  ");
            text.append(p.pvalue.string());
            text.append("\n");
            proof {
                assert(self@.take(i + 1).drop_last() =~= self@.take(i as int));
            }
            i = i + 1;
        }
        proof {
            assert(self@.take(i as int) =~= self@);
        }
        text
    }
}

} // verus!
