use blockfall::{classic_reroll, fix_starting_piece, Randomizer, RandomizerStyle};

fn catalog() -> Vec<String> {
    vec!["I".to_string(), "T".to_string(), "O".to_string(), "2".to_string()]
}

fn count_of(pieces: &[String], id: &str) -> usize {
    pieces.iter().filter(|p| p.as_str() == id).count()
}

#[test]
fn n_bag_holds_each_piece_exactly_once() {
    let mut r = Randomizer::new(catalog(), RandomizerStyle::NBag);
    for _ in 0..20 {
        let pieces = r.generate_pieces(&None);
        assert_eq!(pieces.len(), 4);
        for id in ["I", "T", "O", "2"] {
            assert_eq!(count_of(&pieces, id), 1);
        }
    }
}

#[test]
fn double_n_bag_holds_each_piece_exactly_twice() {
    let mut r = Randomizer::new(catalog(), RandomizerStyle::DoubleNBag);
    let pieces = r.generate_pieces(&None);
    assert_eq!(pieces.len(), 8);
    for id in ["I", "T", "O", "2"] {
        assert_eq!(count_of(&pieces, id), 2);
    }
}

#[test]
fn minus_1_bag_removes_one_piece_and_remembers_it() {
    let mut r = Randomizer::new(catalog(), RandomizerStyle::Minus1Bag);
    let pieces = r.generate_pieces(&None);
    assert_eq!(pieces.len(), 3);
    let removed = r.remembered_piece.clone().expect("a piece is remembered");
    assert_eq!(count_of(&pieces, removed.as_str()), 0);
    for id in ["I", "T", "O", "2"] {
        if id != removed.as_str() {
            assert_eq!(count_of(&pieces, id), 1);
        }
    }
}

#[test]
fn minus_1_bag_never_excludes_the_same_piece_twice_in_a_row() {
    let mut r = Randomizer::new(catalog(), RandomizerStyle::Minus1Bag);
    r.generate_pieces(&None);
    let mut prev = r.remembered_piece.clone().expect("a piece is remembered");
    for _ in 0..50 {
        r.generate_pieces(&None);
        let next = r.remembered_piece.clone().expect("a piece is remembered");
        assert_ne!(prev, next);
        prev = next;
    }
}

#[test]
fn minus_1_bag_with_single_piece_returns_it_unchanged() {
    let mut r = Randomizer::new(vec!["I".to_string()], RandomizerStyle::Minus1Bag);
    let pieces = r.generate_pieces(&None);
    assert_eq!(pieces, vec!["I".to_string()]);
    assert!(r.remembered_piece.is_none());
}

#[test]
fn full_random_draws_ten_catalog_pieces() {
    let mut r = Randomizer::new(catalog(), RandomizerStyle::FullRandom);
    let pieces = r.generate_pieces(&None);
    assert_eq!(pieces.len(), 10);
    let cat = catalog();
    for p in pieces.iter() {
        assert!(cat.contains(p));
    }
}

#[test]
fn classic_draws_ten_and_remembers_the_last() {
    let mut r = Randomizer::new(catalog(), RandomizerStyle::Classic);
    let pieces = r.generate_pieces(&None);
    assert_eq!(pieces.len(), 10);
    let cat = catalog();
    for p in pieces.iter() {
        assert!(cat.contains(p));
    }
    let remembered = r.remembered_piece.clone().expect("a piece is remembered");
    assert!(cat.contains(&remembered));
    assert_eq!(remembered, *pieces.last().expect("ten pieces"));
}

#[test]
fn classic_reroll_replaces_head_matching_remembered_piece() {
    let draws: Vec<String> = vec!["A", "A", "B", "B", "C"].iter().map(|s| s.to_string()).collect();
    let replacements: Vec<String> =
        vec!["B", "C", "C", "A", "C"].iter().map(|s| s.to_string()).collect();
    let prev = Some("A".to_string());
    let out = classic_reroll(draws, &prev, replacements);
    // head "A" matched the remembered piece and took replacement "B";
    // the second "A" no longer matches its predecessor after that; the
    // repeated "B" at index 3 is rerolled to "A"
    let expect: Vec<String> = vec!["B", "A", "B", "A", "C"].iter().map(|s| s.to_string()).collect();
    assert_eq!(out, expect);
}

#[test]
fn classic_reroll_accepts_a_second_collision() {
    let draws: Vec<String> = vec!["A", "B"].iter().map(|s| s.to_string()).collect();
    let replacements: Vec<String> = vec!["A", "B"].iter().map(|s| s.to_string()).collect();
    let prev = Some("A".to_string());
    let out = classic_reroll(draws, &prev, replacements);
    // the replacement collided again and is kept as it is
    assert_eq!(out[0], "A".to_string());
}

#[test]
fn streak_repeats_one_piece_between_two_and_five_times() {
    let mut r = Randomizer::new(catalog(), RandomizerStyle::Streak);
    for _ in 0..20 {
        let pieces = r.generate_pieces(&None);
        assert!(pieces.len() >= 2 && pieces.len() < 6);
        for p in pieces.iter() {
            assert_eq!(*p, pieces[0]);
        }
        assert!(catalog().contains(&pieces[0]));
    }
}

#[test]
fn fix_starting_piece_swaps_first_allowed_from_the_back() {
    let mut list: Vec<String> = vec!["A", "B", "C"].iter().map(|s| s.to_string()).collect();
    let disallowed: Vec<String> = vec!["C".to_string()];
    fix_starting_piece(&mut list, &disallowed);
    let expect: Vec<String> = vec!["A", "C", "B"].iter().map(|s| s.to_string()).collect();
    assert_eq!(list, expect);
}

#[test]
fn fix_starting_piece_keeps_allowed_tail() {
    let mut list: Vec<String> = vec!["A", "B", "C"].iter().map(|s| s.to_string()).collect();
    let disallowed: Vec<String> = vec!["A".to_string()];
    fix_starting_piece(&mut list, &disallowed);
    let expect: Vec<String> = vec!["A", "B", "C"].iter().map(|s| s.to_string()).collect();
    assert_eq!(list, expect);
}

#[test]
fn fix_starting_piece_leaves_all_disallowed_alone() {
    let mut list: Vec<String> = vec!["A", "A", "A"].iter().map(|s| s.to_string()).collect();
    let disallowed: Vec<String> = vec!["A".to_string()];
    fix_starting_piece(&mut list, &disallowed);
    let expect: Vec<String> = vec!["A", "A", "A"].iter().map(|s| s.to_string()).collect();
    assert_eq!(list, expect);
}

#[test]
fn generate_pieces_respects_cannot_start_with_when_possible() {
    let mut r = Randomizer::new(catalog(), RandomizerStyle::NBag);
    let forbidden = Some(vec!["I".to_string(), "T".to_string()]);
    for _ in 0..20 {
        let pieces = r.generate_pieces(&forbidden);
        let tail = pieces.last().expect("batch is never empty");
        assert!(tail.as_str() != "I" && tail.as_str() != "T");
    }
}
