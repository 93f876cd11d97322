use libmtg_doomsday::goldfish::{
    air_count, bar, card_counts, deal_opening_hands, deal_send_hand, expand_main_board,
    opening_cards, TraceSelection, TRACE_GAME_CAP, default_protection, expand_deck, protection_count,
    record_sample, sample_doomsday_deck, vroomsday_deck, GoldfishEvent, GoldfishObjective,
    GameOutcome, GoldfishStats, MissingElement, PlayerId, SampleGame, SendReport,
};
use rand::rngs::SmallRng;
use rand::SeedableRng;

fn strings(v: &[&str]) -> Vec<String> {
    v.iter().map(|s| s.to_string()).collect()
}

// The catalog lookup of every card ("all known") needs the rules engine's card catalog,
// which this crate does not contain; the deck contents are checked instead.
#[test]
fn vroomsday_deck_is_sixty_and_all_known() {
    let deck = vroomsday_deck();
    let total: i32 = deck.iter().map(|(_, q, _)| q).sum();
    assert_eq!(total, 60, "vroomsday mainboard should be 60 cards");
    assert!(deck.iter().all(|(_, _, board)| board == "main"));
    assert_eq!(deck.len(), 25);
    assert_eq!(deck[15], ("The Fantasticar".to_string(), 4, "main".to_string()));
}

#[test]
fn sample_deck_is_sixty() {
    let deck = sample_doomsday_deck();
    let total: i32 = deck.iter().map(|(_, q, _)| q).sum();
    assert_eq!(total, 60);
    assert_eq!(deck.len(), 28);
    assert_eq!(deck[0], ("Underground Sea".to_string(), 3, "main".to_string()));
    assert_eq!(deck[27], ("Murktide Regent".to_string(), 2, "main".to_string()));
}

#[test]
fn expand_deck_repeats_each_card_its_quantity() {
    let deck = vec![
        ("Ponder".to_string(), 2, "main".to_string()),
        ("Daze".to_string(), -1, "main".to_string()),
        ("Island".to_string(), 1, "side".to_string()),
    ];
    assert_eq!(expand_deck(&deck), strings(&["Ponder", "Ponder", "Island"]));
    assert_eq!(expand_deck(&sample_doomsday_deck()).len(), 60);
}

#[test]
fn dealt_hands_are_seven_cards_of_the_deck() {
    let deck = sample_doomsday_deck();
    let pool = expand_deck(&deck);
    let mut rng = SmallRng::seed_from_u64(20260620);
    let hands = deal_opening_hands(&deck, 4, &mut rng);
    assert_eq!(hands.len(), 4);
    assert!(hands.iter().all(|h| h.len() == 7));
    for h in &hands {
        for c in h {
            let in_hand = h.iter().filter(|x| *x == c).count();
            let in_deck = pool.iter().filter(|x| *x == c).count();
            assert!(in_hand <= in_deck, "{c} dealt more often than the deck holds it");
        }
    }
    let tiny = vec![("Ponder".to_string(), 3, "main".to_string())];
    let small = deal_opening_hands(&tiny, 2, &mut rng);
    assert!(small.iter().all(|h| h.len() == 3));
}

#[test]
fn objective_ends_on_our_doomsday() {
    let mut o = GoldfishObjective::default();
    assert!(o.observe(&GoldfishEvent::SpellResolved { controller: PlayerId::Us, card_key: Some("Doomsday".to_string()) }));
    assert!(!o.observe(&GoldfishEvent::SpellResolved { controller: PlayerId::Opp, card_key: Some("Doomsday".to_string()) }));
    assert!(!o.observe(&GoldfishEvent::SpellResolved { controller: PlayerId::Us, card_key: Some("Ponder".to_string()) }));
    assert!(!o.observe(&GoldfishEvent::SpellResolved { controller: PlayerId::Us, card_key: None }));
    let car = GoldfishEvent::TokenCreated { controller: PlayerId::Us, token_key: "Fantasticar Construct".to_string() };
    assert!(!o.observe(&car), "Doomsday-only baseline ignores the car");
    assert!(!o.observe(&GoldfishEvent::Other));
    let mut two = GoldfishObjective { count_car: true };
    assert!(two.observe(&car));
    assert!(!two.observe(&GoldfishEvent::TokenCreated { controller: PlayerId::Opp, token_key: "Fantasticar Construct".to_string() }));
    assert!(two.count_car);
}

#[test]
fn samples_keep_the_first_eight_games() {
    let mut samples: Vec<SampleGame> = Vec::new();
    for g in 0..10u8 {
        record_sample(&mut samples, strings(&["Ponder"]), vec![strings(&["Island"])], g % 2 == 0, g);
    }
    assert_eq!(samples.len(), 8);
    assert_eq!(samples[0].mulls, 1);
    assert_eq!(samples[0].cast_turn, Some(0));
    assert_eq!(samples[1].cast_turn, None);
    assert_eq!(samples[2].hand, strings(&["Ponder"]));
}

#[test]
fn counts_air_and_protection() {
    let hand = strings(&["Wasteland", "Force of Will", "Daze", "Ponder", "Cavern of Souls", "Daze"]);
    assert_eq!(air_count(&hand), 2);
    let prot = default_protection();
    assert_eq!(prot, vec!["Force of Will", "Daze", "Force of Negation", "Thoughtseize"]);
    assert_eq!(protection_count(&hand, &prot), 3);
    assert_eq!(protection_count(&strings(&[]), &prot), 0);
}

#[test]
fn send_report_tallies_hands() {
    let mut r = SendReport::new(5, 3);
    r.record_hand(true, false, 1);
    r.record_hand(false, true, 0);
    r.record_hand(true, true, 2);
    r.record_hand(false, false, 3);
    assert_eq!((r.dd_by, r.car_by, r.send_by), (2, 2, 3));
    assert_eq!((r.send_protected, r.send_naked), (2, 1));
    assert_eq!((r.games, r.cutoff), (5, 3));
    // consistent: sends split into protected and naked; union between max and sum
    assert_eq!(r.send_protected + r.send_naked, r.send_by);
    assert!(r.dd_by.max(r.car_by) <= r.send_by && r.send_by <= r.dd_by + r.car_by);
}

#[test]
fn bar_scales_to_width() {
    assert_eq!(bar(5, 10, 40), "█".repeat(20));
    assert_eq!(bar(10, 10, 40), "█".repeat(40));
    assert_eq!(bar(3, 0, 40), "");
    assert_eq!(bar(1, 3, 40), "█".repeat(13));
}

fn game(
    opening: &[&str],
    mulls: &[&[&str]],
    terminal: bool,
    turn: u8,
    final_hand: &[&str],
    summary: Option<(u8, bool)>,
    missing: MissingElement,
) -> GameOutcome {
    GameOutcome {
        opening_hand: strings(opening),
        mulliganed_hands: mulls.iter().map(|h| strings(h)).collect(),
        terminal,
        current_turn: turn,
        final_hand: strings(final_hand),
        summary,
        missing,
    }
}

#[test]
fn goldfish_stats_tally_games() {
    let prot = default_protection();
    let mut s = GoldfishStats::new(4, 3);
    // Kept 7 with two air, cast on turn 2 from a deterministic line, Force + Daze held.
    s.record_game(
        game(
            &["Wasteland", "Unearth", "Doomsday", "Ponder", "Island", "Swamp", "Dark Ritual"],
            &[],
            true,
            2,
            &["Force of Will", "Daze", "Ponder"],
            Some((0, true)),
            MissingElement::Neither,
        ),
        &prot,
    );
    // One mulligan (the thrown-back seven had one air), drew into it on turn 3.
    s.record_game(
        game(
            &["Doomsday", "Ponder", "Island", "Swamp", "Dark Ritual", "Brainstorm"],
            &[&["Thassa's Oracle", "Island", "Island", "Island", "Island", "Island", "Island"]],
            true,
            3,
            &["Daze"],
            Some((1, false)),
            MissingElement::Neither,
        ),
        &prot,
    );
    // Never ended: a failure, missing the payoff.
    s.record_game(
        game(&["Island"; 7], &[], false, 3, &[], Some((0, false)), MissingElement::Payoff),
        &prot,
    );
    // Ended on turn 5, past the cutoff, with no summary line.
    s.record_game(game(&["Island"; 7], &[], true, 5, &["Thoughtseize"], None, MissingElement::Mana), &prot);

    assert_eq!((s.games, s.cutoff, s.fails), (4, 3, 1));
    assert_eq!(s.successes(), 3);
    assert_eq!(s.cast_turn.iter().map(|(k, v)| (*k, *v)).collect::<Vec<_>>(), vec![(2, 1), (3, 1), (5, 1)]);
    assert_eq!(s.protection.iter().map(|(k, v)| (*k, *v)).collect::<Vec<_>>(), vec![(1, 2), (2, 1)]);
    assert_eq!(s.mull_count.iter().map(|(k, v)| (*k, *v)).collect::<Vec<_>>(), vec![(0, 2), (1, 1)]);
    assert_eq!(s.mull_cast.iter().map(|(k, v)| (*k, *v)).collect::<Vec<_>>(), vec![(0, 1), (1, 1)]);
    assert_eq!((s.kept7_air_sum, s.kept7_count), (2, 3));
    assert_eq!((s.mull7_air_sum, s.mull7_count), (1, 1));
    assert_eq!((s.deterministic_cast, s.stochastic_cast), (1, 1));
    assert_eq!((s.miss_mana, s.miss_payoff, s.miss_both, s.miss_neither), (0, 1, 0, 0));
    assert_eq!(s.samples.len(), 4);
    assert_eq!(s.samples[1].mulls, 1);
    assert_eq!(s.samples[2].cast_turn, None);
    assert_eq!(s.samples[3].cast_turn, Some(5));
}

#[test]
fn goldfish_stats_start_empty() {
    let s = GoldfishStats::new(10, 4);
    assert_eq!((s.games, s.cutoff, s.fails, s.successes()), (10, 4, 0, 10));
    assert!(s.cast_turn.is_empty() && s.protection.is_empty() && s.mull_count.is_empty());
    assert!(s.samples.is_empty());
}

#[test]
fn main_board_skips_other_boards() {
    let deck = vec![
        ("Doomsday".to_string(), 2, "main".to_string()),
        ("Pyroblast".to_string(), 3, "side".to_string()),
        ("Daze".to_string(), 1, "main".to_string()),
        ("Ponder".to_string(), -1, "main".to_string()),
    ];
    assert_eq!(expand_main_board(&deck), strings(&["Doomsday", "Doomsday", "Daze"]));
    assert_eq!(expand_main_board(&sample_doomsday_deck()).len(), 60);
}

#[test]
fn opening_cards_are_seven_on_the_play_eight_on_the_draw() {
    let deck: Vec<String> = (0..10).map(|i| format!("card{i}")).collect();
    assert_eq!(opening_cards(&deck, false), deck[..7].to_vec());
    assert_eq!(opening_cards(&deck, true), deck[..8].to_vec());
    let small = strings(&["Island", "Swamp"]);
    assert_eq!(opening_cards(&small, true), small);
}

#[test]
fn send_hands_come_from_the_main_board() {
    let pool = expand_main_board(&sample_doomsday_deck());
    let mut rng = SmallRng::seed_from_u64(11);
    for on_draw in [false, true] {
        let hand = deal_send_hand(&pool, on_draw, &mut rng);
        assert_eq!(hand.len(), if on_draw { 8 } else { 7 });
        let mut rest = pool.clone();
        for c in &hand {
            let i = rest.iter().position(|x| x == c).expect("card from the pool");
            rest.remove(i);
        }
    }
}

#[test]
fn card_counts_follow_the_card_order() {
    let cards = strings(&["Daze", "Doomsday", "Ponder"]);
    let hand = strings(&["Ponder", "Daze", "Ponder", "Island"]);
    assert_eq!(card_counts(&cards, &hand), vec![1, 0, 2]);
    assert_eq!(card_counts(&cards, &[]), vec![0, 0, 0]);
}

#[test]
fn trace_keeps_first_wins_and_losses() {
    let mut t = TraceSelection::new(2, 1);
    assert!(t.wants_more());
    assert_eq!(t.record(true), Some(1));
    assert_eq!(t.record(false), Some(1));
    assert!(t.wants_more());
    assert_eq!(t.record(false), None);
    assert_eq!(t.record(true), Some(2));
    assert!(!t.wants_more());
    assert_eq!((t.got_w, t.got_l, t.games), (2, 1, 4));
    let mut capped = TraceSelection { n_win: 1, n_loss: 0, got_w: 0, got_l: 0, games: TRACE_GAME_CAP - 1 };
    assert!(capped.wants_more());
    assert_eq!(capped.record(false), None);
    assert!(!capped.wants_more());
    assert_eq!(TRACE_GAME_CAP, 200_000);
}
