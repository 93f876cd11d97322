use libmtg_doomsday::mull::{
    aggressive_keep, hand_signals, is_air, realistic_keep, should_mulligan, stably_castable,
    taps_for, CardFacts, CardRole, Color, HandCard, HandSignals, ManaAbility, MullMode,
    OpeningHand,
};
use Color::{Black, Blue, Colorless, Green, Red, White};

fn ability(colors: &[Color]) -> ManaAbility {
    ManaAbility {
        from_battlefield: true,
        default_timing: true,
        conditional: false,
        produces: colors.to_vec(),
    }
}

fn facts(is_land: bool, digs: bool, cycling: bool, cost: &str, abilities: Vec<ManaAbility>) -> CardFacts {
    CardFacts {
        is_land,
        digs_on_resolve: digs,
        has_cycling_draw: cycling,
        mana_cost: cost.to_string(),
        mana_abilities: abilities,
    }
}

/// The game facts of the cards these tests deal (role, land, cantrip, cost, mana).
fn card(name: &str) -> HandCard {
    let any = [White, Blue, Black, Red, Green];
    let (role, f) = match name {
        "Underground Sea" => (CardRole::BlackLandUntapped, facts(true, false, false, "", vec![ability(&[Blue, Black])])),
        "Island" => (CardRole::Other, facts(true, false, false, "", vec![ability(&[Blue])])),
        "Swamp" => (CardRole::BlackLandUntapped, facts(true, false, false, "", vec![ability(&[Black])])),
        "Polluted Delta" | "Flooded Strand" | "Misty Rainforest" | "Scalding Tarn" | "Marsh Flats"
        | "Bloodstained Mire" | "Verdant Catacombs" => (CardRole::Fetch, facts(true, false, false, "", vec![])),
        "Undercity Sewers" => (CardRole::BlackLandTapped, facts(true, false, false, "", vec![ability(&[Blue, Black])])),
        "Wasteland" => (CardRole::Other, facts(true, false, false, "", vec![ability(&[Colorless])])),
        "Cavern of Souls" => {
            let mut creature_only = ability(&any);
            creature_only.conditional = true;
            (CardRole::Other, facts(true, false, false, "", vec![ability(&[Colorless]), creature_only]))
        }
        "Lotus Petal" => (CardRole::Petal, facts(false, false, false, "{0}", vec![ability(&any)])),
        "Lion's Eye Diamond" => (CardRole::Other, facts(false, false, false, "{0}", vec![])),
        "Dark Ritual" => (CardRole::Ritual, facts(false, false, false, "{B}", vec![])),
        "Doomsday" => (CardRole::Payoff, facts(false, false, false, "{B}{B}{B}", vec![])),
        "Brainstorm" | "Ponder" | "Consider" => (CardRole::Other, facts(false, true, false, "{U}", vec![])),
        "Flow State" => (CardRole::Other, facts(false, true, false, "{1}{U}", vec![])),
        "Street Wraith" => (CardRole::Other, facts(false, false, true, "{3}{B}{B}", vec![])),
        "Force of Will" => (CardRole::Other, facts(false, false, false, "{3}{U}{U}", vec![])),
        "Daze" => (CardRole::Other, facts(false, false, false, "{1}{U}", vec![])),
        "Thoughtseize" => (CardRole::Other, facts(false, false, false, "{B}", vec![])),
        "Tamiyo, Inquisitive Student" => (CardRole::Other, facts(false, false, false, "{U}", vec![])),
        "Murktide Regent" => (CardRole::Other, facts(false, false, false, "{5}{U}{U}", vec![])),
        "Orcish Bowmasters" => (CardRole::Other, facts(false, false, false, "{1}{B}", vec![])),
        "Thassa's Oracle" => (CardRole::Other, facts(false, false, false, "{U}{U}", vec![])),
        "Unearth" => (CardRole::Other, facts(false, false, false, "{B}", vec![])),
        "Edge of Autumn" => (CardRole::Other, facts(false, false, false, "{1}{G}", vec![])),
        other => panic!("no facts for {other}"),
    };
    HandCard { name: name.to_string(), role, facts: Some(f) }
}

fn hand_of(names: &[&str], det_line: bool) -> OpeningHand {
    OpeningHand { cards: names.iter().map(|n| card(n)).collect(), det_line, tami_fast_flip: false }
}

/// The `Realistic` keep decision at mulligan depth `mulls`; `det_line` is the solver's
/// deterministic-line verdict on the hand.
fn realistic_keeps_at(hand: &[&str], mulls: u32, det_line: bool) -> bool {
    realistic_keep(&hand_signals(&hand_of(hand, det_line)), mulls)
}

#[test]
fn realistic_matches_human_blind_calls() {
    // (KEEP?, solver finds a deterministic line, hand)
    let cases: &[(bool, bool, &[&str])] = &[
        // ── keeps ──
        (true, false, &["Tamiyo, Inquisitive Student", "Doomsday", "Scalding Tarn", "Daze", "Ponder", "Murktide Regent", "Polluted Delta"]), // A
        (true, true, &["Force of Will", "Misty Rainforest", "Brainstorm", "Doomsday", "Ponder", "Undercity Sewers", "Dark Ritual"]), // E (det line)
        (true, false, &["Brainstorm", "Doomsday", "Misty Rainforest", "Orcish Bowmasters", "Polluted Delta", "Tamiyo, Inquisitive Student", "Murktide Regent"]), // F
        (true, true, &["Misty Rainforest", "Dark Ritual", "Dark Ritual", "Doomsday", "Daze", "Tamiyo, Inquisitive Student", "Orcish Bowmasters"]), // G (det line)
        (true, false, &["Tamiyo, Inquisitive Student", "Lion's Eye Diamond", "Ponder", "Flooded Strand", "Doomsday", "Street Wraith", "Force of Will"]), // I
        (true, false, &["Dark Ritual", "Undercity Sewers", "Scalding Tarn", "Dark Ritual", "Ponder", "Swamp", "Tamiyo, Inquisitive Student"]), // J
        (true, false, &["Tamiyo, Inquisitive Student", "Ponder", "Scalding Tarn", "Force of Will", "Polluted Delta", "Murktide Regent", "Orcish Bowmasters"]), // K
        (true, false, &["Brainstorm", "Scalding Tarn", "Edge of Autumn", "Polluted Delta", "Ponder", "Cavern of Souls", "Thoughtseize"]), // L
        (true, false, &["Ponder", "Underground Sea", "Brainstorm", "Edge of Autumn", "Unearth", "Brainstorm", "Polluted Delta"]), // M
        (true, false, &["Swamp", "Thoughtseize", "Unearth", "Misty Rainforest", "Consider", "Brainstorm", "Wasteland"]), // N
        (true, false, &["Daze", "Consider", "Tamiyo, Inquisitive Student", "Underground Sea", "Ponder", "Dark Ritual", "Ponder"]), // O
        (true, false, &["Marsh Flats", "Street Wraith", "Wasteland", "Daze", "Edge of Autumn", "Wasteland", "Ponder"]), // P
        // one land but a dig + a wall of interaction/threats (low air) — a keep.
        (true, false, &["Underground Sea", "Thoughtseize", "Force of Will", "Murktide Regent", "Murktide Regent", "Ponder", "Force of Will"]), // batch #12
        // H but the land is a blue Sea, so Consider IS castable off stable mana.
        (true, false, &["Consider", "Underground Sea", "Force of Will", "Orcish Bowmasters", "Edge of Autumn", "Lotus Petal", "Lotus Petal"]), // H-with-Sea
        // ── mulls ──
        (false, false, &["Lotus Petal", "Ponder", "Murktide Regent", "Tamiyo, Inquisitive Student", "Wasteland", "Dark Ritual", "Dark Ritual"]), // B (no colored land)
        (false, false, &["Tamiyo, Inquisitive Student", "Force of Will", "Daze", "Ponder", "Edge of Autumn", "Brainstorm", "Thoughtseize"]), // C (no land)
        (false, false, &["Cavern of Souls", "Force of Will", "Murktide Regent", "Ponder", "Wasteland", "Swamp", "Orcish Bowmasters"]), // D (Ponder uncastable, no blue)
        // H: its only land is a black Swamp, so Consider is castable only by burning a Petal.
        (false, false, &["Consider", "Swamp", "Force of Will", "Orcish Bowmasters", "Edge of Autumn", "Lotus Petal", "Lotus Petal"]), // H
        // two Ponders but NO black source — digs toward an uncastable DD.
        (false, false, &["Thoughtseize", "Ponder", "Daze", "Unearth", "Island", "Ponder", "Wasteland"]), // r4-#12
        // explosive mana but only one look and no DD/Tamiyo — speculative.
        (false, false, &["Scalding Tarn", "Ponder", "Lotus Petal", "Wasteland", "Misty Rainforest", "Lotus Petal", "Dark Ritual"]), // r4-#13
    ];
    let mut wrong = Vec::new();
    for (i, (want, det, hand)) in cases.iter().enumerate() {
        let got = realistic_keeps_at(hand, 0, *det);
        if got != *want {
            wrong.push(format!(
                "  case {i}: want {} got {} — [{}]",
                if *want { "KEEP" } else { "MULL" },
                if got { "KEEP" } else { "MULL" },
                hand.join(", ")
            ));
        }
    }
    assert!(wrong.is_empty(), "Realistic rule disagreed with human calls:\n{}", wrong.join("\n"));
}

#[test]
fn realistic_scales_with_hand_size() {
    let thin = &["Scalding Tarn", "Ponder", "Lotus Petal", "Wasteland", "Misty Rainforest", "Lotus Petal", "Dark Ritual"];
    assert!(!realistic_keeps_at(thin, 0, false), "thin dig is a mull at the 7");
    assert!(realistic_keeps_at(thin, 2, false), "thin dig is a keep at the 5 (air bottomed)");
    let no_deep = &["Undercity Sewers", "Street Wraith", "Underground Sea", "Force of Will", "Daze", "Thoughtseize", "Murktide Regent"];
    assert!(!realistic_keeps_at(no_deep, 0, false), "no deep look ⇒ no dig at 7");
    assert!(!realistic_keeps_at(no_deep, 2, false), "no deep look ⇒ no dig at 5");
}

#[test]
fn keep7_never_mulligans_and_floor_holds() {
    let hand = hand_of(&["Island", "Wasteland", "Force of Will"], false);
    assert!(!should_mulligan(MullMode::Keep7, &hand, 0, false, false));
    assert!(!should_mulligan(MullMode::Realistic, &hand, 3, false, false)); // 4-card: keep
}

#[test]
fn junk_hand_is_mulliganed_by_rule_modes_above_the_floor() {
    let hand = hand_of(&["Island", "Wasteland", "Force of Will"], false);
    assert!(should_mulligan(MullMode::Realistic, &hand, 0, false, false));
    assert!(should_mulligan(MullMode::Aggressive, &hand, 2, false, false));
    assert!(!should_mulligan(MullMode::Aggressive, &hand, 2, true, false)); // keep-every-7 override
}

#[test]
fn learned_modes_follow_the_learned_verdict_above_the_floor() {
    let hand = hand_of(&["Island", "Wasteland", "Force of Will"], false);
    assert!(should_mulligan(MullMode::LearnedSpeed, &hand, 2, false, false));
    assert!(!should_mulligan(MullMode::LearnedInteractive, &hand, 2, false, true));
    // the 4-card hand is always kept, in every mode
    assert!(!should_mulligan(MullMode::LearnedSpeed, &hand, 3, false, false));
    assert!(!should_mulligan(MullMode::LearnedInteractive, &hand, 4, false, false));
}

#[test]
fn mode_tokens_parse() {
    assert_eq!(MullMode::from_str_or_default("keep7"), MullMode::Keep7);
    assert_eq!(MullMode::from_str_or_default("aggressive"), MullMode::Aggressive);
    assert_eq!(MullMode::from_str_or_default("learned-speed"), MullMode::LearnedSpeed);
    assert_eq!(MullMode::from_str_or_default("learned_speed"), MullMode::LearnedSpeed);
    assert_eq!(MullMode::from_str_or_default("learned-interactive"), MullMode::LearnedInteractive);
    assert_eq!(MullMode::from_str_or_default("learned_interactive"), MullMode::LearnedInteractive);
    assert_eq!(MullMode::from_str_or_default("realistic"), MullMode::Realistic);
    assert_eq!(MullMode::from_str_or_default("nonsense"), MullMode::Realistic);
    assert_eq!(MullMode::default(), MullMode::Realistic);
}

#[test]
fn air_cards_are_named() {
    assert!(is_air("Wasteland"));
    assert!(is_air("Thassa's Oracle"));
    assert!(!is_air("Ponder"));
}

#[test]
fn cavern_does_not_tap_colored_unconditionally() {
    let cavern = card("Cavern of Souls").facts.unwrap();
    assert!(!taps_for(&cavern, Blue));
    assert!(taps_for(&cavern, Colorless));
    let petal = card("Lotus Petal").facts.unwrap();
    assert!(taps_for(&petal, Black));
}

#[test]
fn castability_counts_generic_and_coloured_pips() {
    let mut s = HandSignals::default();
    s.colored_lands = 1;
    s.blue_lands = 1;
    s.black_lands = 1;
    let flow_state = card("Flow State").facts.unwrap();
    let ponder = card("Ponder").facts.unwrap();
    assert!(stably_castable(&s, &ponder));
    assert!(!stably_castable(&s, &flow_state), "a lone Sea can't cast Flow State");
    s.colored_lands = 2;
    assert!(stably_castable(&s, &flow_state));
    let mut big = ponder.clone();
    big.mana_cost = " 12U ".to_string();
    s.colored_lands = 12;
    assert!(!stably_castable(&s, &big));
    s.colored_lands = 13;
    assert!(stably_castable(&s, &big));
}

#[test]
fn hand_signals_counts_thin_dig() {
    let s = hand_signals(&hand_of(
        &["Scalding Tarn", "Ponder", "Lotus Petal", "Wasteland", "Misty Rainforest", "Lotus Petal", "Dark Ritual"],
        false,
    ));
    assert_eq!(s.lands, 2);
    assert_eq!(s.colored_lands, 2);
    assert_eq!(s.blue_lands, 2);
    assert_eq!(s.black_lands, 2);
    assert_eq!(s.petals, 2);
    assert_eq!(s.rituals, 1);
    assert_eq!(s.named_air, 3); // Wasteland + the two accelerants beyond the first
    assert_eq!(s.deep_looks, 1);
    assert_eq!(s.marginal_looks, 2); // two fetches backed by a second land
    assert_eq!(s.supporters, 0);
    assert!(s.fetch && !s.has_dd && !s.has_tamiyo);
}

#[test]
fn unknown_cards_count_for_nothing() {
    let mut hand = hand_of(&["Underground Sea"], false);
    hand.cards.push(HandCard { name: "Mystery".to_string(), role: CardRole::Payoff, facts: None });
    let s = hand_signals(&hand);
    assert!(!s.has_dd);
    assert_eq!(s.lands, 1);
}

#[test]
fn aggressive_keeps_doomsday_with_bb_and_a_look() {
    let hand = hand_of(&["Doomsday", "Underground Sea", "Lotus Petal", "Street Wraith", "Daze", "Daze", "Daze"], false);
    assert!(aggressive_keep(&hand, false));
    let no_look = hand_of(&["Doomsday", "Underground Sea", "Lotus Petal", "Daze", "Daze", "Daze", "Daze"], false);
    assert!(!aggressive_keep(&no_look, false));
    assert!(aggressive_keep(&hand_of(&["Daze"], true), false));
}

#[test]
fn realistic_flood_check_after_bottoms() {
    let mut s = HandSignals::default();
    s.lands = 5;
    s.colored_lands = 5;
    s.black_lands = 5;
    s.blue_lands = 5;
    s.deep_looks = 2;
    assert!(!realistic_keep(&s, 0), "five lands at seven is a flood");
    assert!(realistic_keep(&s, 2), "bottoming two lands leaves three");
    // all lands count toward the flood, colorless ones too
    let mut t = HandSignals::default();
    t.lands = 4;
    t.colored_lands = 3;
    assert!(t.flooded(0));
    t.named_air = 1;
    assert!(t.flooded(1), "the bottom goes to the air card first");
    assert!(!t.flooded(2));
}

#[test]
fn air_cards_are_read_as_if_not_drawn() {
    let base = &["Underground Sea", "Ponder", "Doomsday", "Lotus Petal", "Force of Will"];
    let with_air = &["Underground Sea", "Ponder", "Wasteland", "Doomsday", "Lotus Petal", "Force of Will"];
    let a = hand_signals(&hand_of(base, false));
    let b = hand_signals(&hand_of(with_air, false));
    assert_eq!(b, HandSignals { named_air: a.named_air + 1, ..a });
}

#[test]
fn signals_ignore_draw_order() {
    let hand = ["Scalding Tarn", "Ponder", "Lotus Petal", "Wasteland", "Misty Rainforest", "Lotus Petal", "Dark Ritual"];
    let mut reversed = hand;
    reversed.reverse();
    assert_eq!(hand_signals(&hand_of(&hand, false)), hand_signals(&hand_of(&reversed, false)));
}

#[test]
fn aggressive_keeps_the_four_card_hand() {
    let hand = hand_of(&["Island", "Wasteland", "Force of Will"], false);
    assert!(!should_mulligan(MullMode::Aggressive, &hand, 3, false, false));
    assert!(!should_mulligan(MullMode::Keep7, &hand, 5, false, false));
}
