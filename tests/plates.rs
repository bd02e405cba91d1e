use plate::{PColor, PValue, Plate, PlateError, Plates};

const COLORS: [PColor; 6] = [
    PColor::Plum,
    PColor::Square,
    PColor::Hearts,
    PColor::Spades,
    PColor::Queen,
    PColor::King,
];

fn all_values() -> Vec<PValue> {
    (1u8..=15).map(|n| PValue::from_value(n).unwrap()).collect()
}

fn key(p: &Plate) -> (u8, u8) {
    let c = COLORS.iter().position(|c| *c == p.pcolor).unwrap() as u8;
    (c, p.pvalue.value())
}

fn sorted_keys(d: &Plates) -> Vec<(u8, u8)> {
    let mut keys: Vec<(u8, u8)> = d.plates.iter().map(key).collect();
    keys.sort();
    keys
}

fn is_joker_color(c: PColor) -> bool {
    c == PColor::Queen || c == PColor::King
}

#[test]
fn color_names() {
    let en: Vec<&str> = COLORS.iter().map(|c| c.en_string()).collect();
    assert_eq!(en, vec!["plum", "square", "hearts", "spades", "queen", "king"]);
    let zh: Vec<&str> = COLORS.iter().map(|c| c.string()).collect();
    assert_eq!(zh, vec!["梅花", "方块", "红心", "黑桃", "小王", "大王"]);
}

#[test]
fn value_labels_and_ordinals() {
    let labels: Vec<&str> = all_values().iter().map(|v| v.string()).collect();
    assert_eq!(
        labels,
        vec!["A", "2", "3", "4", "5", "6", "7", "8", "9", "10", "J", "Q", "K", "Queen", "King"]
    );
    assert_eq!(PValue::CardA.value(), 1);
    assert_eq!(PValue::Card10.value(), 10);
    assert_eq!(PValue::CardK.value(), 13);
    assert_eq!(PValue::CardQueen.value(), 14);
    assert_eq!(PValue::CardKing.value(), 15);
}

#[test]
fn value_round_trip() {
    for n in 1u8..=15 {
        assert_eq!(PValue::from_value(n).unwrap().value(), n);
    }
    assert_eq!(PValue::from_value(1), Ok(PValue::CardA));
    assert_eq!(PValue::from_value(11), Ok(PValue::CardJ));
    assert_eq!(PValue::from_value(14), Ok(PValue::CardQueen));
}

#[test]
fn value_out_of_range_is_an_error() {
    assert_eq!(PValue::from_value(0), Err(PlateError::InvalidRankValue(0)));
    assert_eq!(PValue::from_value(16), Err(PlateError::InvalidRankValue(16)));
    assert_eq!(PValue::from_value(255), Err(PlateError::InvalidRankValue(255)));
    for n in 16u8..=255 {
        assert!(PValue::from_value(n).is_err());
    }
}

#[test]
fn value_order_follows_ordinal() {
    let values = all_values();
    for a in values.iter() {
        for b in values.iter() {
            assert_eq!(a < b, a.value() < b.value());
            assert_eq!(a.partial_cmp(b), a.value().partial_cmp(&b.value()));
        }
    }
    for w in values.windows(2) {
        assert!(w[0] < w[1]);
    }
    assert!(PValue::CardA < PValue::Card2);
    assert!(PValue::CardK < PValue::CardQueen);
    assert!(PValue::CardQueen < PValue::CardKing);
}

#[test]
fn plate_new_and_text() {
    let p = Plate::new(PColor::Hearts, PValue::CardA);
    assert_eq!(p.pcolor, PColor::Hearts);
    assert_eq!(p.pvalue, PValue::CardA);
    assert_eq!(p.string(), "红心 A");
    assert_eq!(Plate::new(PColor::Spades, PValue::Card10).string(), "黑桃 10");
    assert_eq!(Plate::new(PColor::King, PValue::CardKing).string(), "大王 King");
}

#[test]
fn plate_default_is_two_of_hearts() {
    let p = Plate::default();
    assert_eq!(p, Plate::new(PColor::Hearts, PValue::Card2));
    assert_eq!(p.string(), "红心 2");
}

#[test]
fn deck_sizes() {
    assert_eq!(Plates::new().plates.len(), 52);
    assert_eq!(Plates::new_with_queen_king().plates.len(), 54);
}

#[test]
fn decks_have_no_duplicates() {
    for d in [Plates::new(), Plates::new_with_queen_king()] {
        let keys = sorted_keys(&d);
        let mut unique = keys.clone();
        unique.dedup();
        assert_eq!(unique.len(), keys.len());
    }
}

#[test]
fn standard_deck_composition() {
    let d = Plates::new();
    assert!(d.plates.iter().all(|p| !is_joker_color(p.pcolor)));
    for v in 1u8..=13 {
        let of_rank: Vec<&Plate> = d.plates.iter().filter(|p| p.pvalue.value() == v).collect();
        assert_eq!(of_rank.len(), 4);
        for c in &COLORS[..4] {
            assert_eq!(of_rank.iter().filter(|p| p.pcolor == *c).count(), 1);
        }
    }
    assert!(d.plates.iter().all(|p| p.pvalue.value() <= 13));
}

#[test]
fn standard_deck_order() {
    let d = Plates::new();
    assert_eq!(d.plates[0], Plate::new(PColor::Plum, PValue::CardA));
    assert_eq!(d.plates[1], Plate::new(PColor::Square, PValue::CardA));
    assert_eq!(d.plates[2], Plate::new(PColor::Hearts, PValue::CardA));
    assert_eq!(d.plates[3], Plate::new(PColor::Spades, PValue::CardA));
    assert_eq!(d.plates[4], Plate::new(PColor::Plum, PValue::Card2));
    assert_eq!(d.plates[51], Plate::new(PColor::Spades, PValue::CardK));
}

#[test]
fn joker_deck_composition() {
    let d = Plates::new_with_queen_king();
    assert_eq!(d.plates[0], Plate::new(PColor::Queen, PValue::CardQueen));
    assert_eq!(d.plates[1], Plate::new(PColor::King, PValue::CardKing));
    assert_eq!(d.plates[2..].to_vec(), Plates::new().plates);
    let queens = d.plates.iter().filter(|p| p.pcolor == PColor::Queen).count();
    let kings = d.plates.iter().filter(|p| p.pcolor == PColor::King).count();
    assert_eq!(queens, 1);
    assert_eq!(kings, 1);
    assert_eq!(d.plates.iter().filter(|p| p.pvalue.value() == 14).count(), 1);
    assert_eq!(d.plates.iter().filter(|p| p.pvalue.value() == 15).count(), 1);
}

#[test]
fn shuffle_keeps_the_cards() {
    let mut d = Plates::new();
    let before = sorted_keys(&d);
    let len = d.random().plates.len();
    assert_eq!(len, 52);
    assert_eq!(sorted_keys(&d), before);
}

#[test]
fn shuffle_changes_the_order() {
    let mut d = Plates::new();
    let mut changed = false;
    for _ in 0..5 {
        d.random();
        if d != Plates::new() {
            changed = true;
        }
    }
    assert!(changed);
}

#[test]
fn shuffle_spreads_cards_over_positions() {
    let mut first = [0u32; 52];
    let rounds = 5200;
    for _ in 0..rounds {
        let mut d = Plates::new();
        d.random();
        let p = d.plates[0];
        let i = (p.pvalue.value() as usize - 1) * 4
            + COLORS.iter().position(|c| *c == p.pcolor).unwrap();
        first[i] += 1;
    }
    for count in first.iter() {
        assert!(*count > 40 && *count < 200);
    }
}

#[test]
fn duplicate_is_independent() {
    let original = Plates::new();
    let mut copy = original.clone();
    assert_eq!(copy, original);
    copy.random();
    assert_eq!(original, Plates::new());
    let mut original2 = Plates::new_with_queen_king();
    let copy2 = original2.clone();
    original2.random();
    assert_eq!(copy2, Plates::new_with_queen_king());
}

#[test]
fn standard_listing() {
    let text = Plates::new().to_string();
    let lines: Vec<&str> = text.split_inclusive('\n').collect();
    assert_eq!(lines.len(), 52);
    assert_eq!(lines[0], "梅花  A\n");
    assert_eq!(lines[1], "方块  A\n");
    assert_eq!(lines[4], "梅花  2\n");
    assert_eq!(lines[51], "黑桃  K\n");
    let mut expected = String::new();
    for v in ["A", "2", "3", "4", "5", "6", "7", "8", "9", "10", "J", "Q", "K"] {
        for c in ["梅花", "方块", "红心", "黑桃"] {
            expected.push_str(&format!("{}  {}\n", c, v));
        }
    }
    assert_eq!(text, expected);
    assert!(text.starts_with("梅花  A\n"));
    assert!(text.ends_with("黑桃  K\n"));
}

#[test]
fn listing_of_joker_deck_and_empty_deck() {
    let text = Plates::new_with_queen_king().to_string();
    assert!(text.starts_with("小王  Queen\n大王  King\n梅花  A\n"));
    assert_eq!(Plates { plates: Vec::new() }.to_string(), "");
}

#[test]
fn joker_deck_scenario() {
    let mut d = Plates::new_with_queen_king();
    assert_eq!(d.plates[0].string(), "小王 Queen");
    assert_eq!(d.plates[1].string(), "大王 King");
    assert_eq!(d.plates.len(), 54);
    let before = sorted_keys(&d);
    d.random();
    assert_eq!(d.plates.len(), 54);
    assert_eq!(sorted_keys(&d), before);
}
