use libmtg_doomsday::learned::{
    card_tags, is_blue, kept_indices, learned_bottom, learned_keep, learned_keep_size,
    resource_counts, subset_masks, subset_size, tag_counts, verdict, N_TAGS,
};

#[test]
fn blue_pitches() {
    assert!(is_blue("Force of Will"));
    assert!(is_blue("Tamiyo, Inquisitive Student"));
    assert!(!is_blue("Doomsday"));
    assert!(!is_blue("Underground Sea"));
}

#[test]
fn card_tags_table() {
    assert_eq!(card_tags("Underground Sea"), vec![0, 1, 2, 3, 5]);
    assert_eq!(card_tags("Scalding Tarn"), vec![0, 1, 2, 3, 4, 5, 11, 8]);
    assert_eq!(card_tags("Wasteland"), vec![17, 16]);
    assert_eq!(card_tags("Lion's Eye Diamond"), vec![19]);
    assert!(card_tags("Marsh Flats").is_empty());
}

#[test]
fn tag_counts_sum_over_the_hand() {
    let counts = tag_counts(&["Underground Sea", "Ponder", "Ponder", "Street Wraith", "Mystery"]);
    assert_eq!(counts.len(), N_TAGS);
    let mut want = vec![0u32; N_TAGS];
    for t in [0, 1, 2, 3, 5] { want[t] += 1; }
    want[14] += 2;
    want[9] += 2;
    want[11] += 1;
    want[8] += 1;
    assert_eq!(counts, want);
}

#[test]
fn resource_counts_of_a_hand() {
    let r = resource_counts(&["Force of Will", "Force of Will", "Ponder", "Daze", "Doomsday", "Doomsday", "Doomsday", "Murktide Regent", "Wasteland", "Thoughtseize"]);
    assert_eq!(r.force_of_will, 2);
    assert_eq!(r.blue, 5); // two Forces, Ponder, Daze, Murktide
    assert!(r.force_deployable());
    assert_eq!(r.daze, 1);
    assert_eq!(r.thoughtseize, 1);
    assert_eq!(r.wasteland, 1);
    assert_eq!(r.clock, 1);
    assert_eq!(r.doomsday, 3);
    assert_eq!(r.clock_and_backup(), 3);
    let lone = resource_counts(&["Force of Will"]);
    assert!(!lone.force_deployable(), "Force needs a non-Force blue pitch");
    assert_eq!(resource_counts(&[]).clock_and_backup(), 0);
}

#[test]
fn subsets_of_a_seven_card_hand() {
    let six = subset_masks(7, 6);
    assert_eq!(six.len(), 7);
    assert!(six.windows(2).all(|w| w[0] < w[1]));
    assert!(six.iter().all(|&m| m < 128 && m.count_ones() == 6));
    assert_eq!(subset_masks(7, 7), vec![127]);
    assert_eq!(subset_masks(3, 0), vec![0]);
    assert_eq!(subset_masks(4, 2).len(), 6);
    assert_eq!(subset_size(0b1011, 4), 3);
    assert_eq!(subset_size(0b1011, 2), 2);
}

#[test]
fn keep_and_bottom_partition_every_candidate() {
    for mask in subset_masks(7, 6) {
        let kept = kept_indices(7, mask);
        let bottom = learned_bottom(7, mask);
        assert_eq!(kept.len(), 6);
        assert_eq!(bottom.len(), 1, "one bottomed at keep-6");
        assert!(!kept.contains(&bottom[0]));
    }
}

#[test]
fn keep_and_bottom_positions() {
    assert_eq!(kept_indices(7, 0b0111_1101), vec![0, 2, 3, 4, 5, 6]);
    assert_eq!(learned_bottom(7, 0b0111_1101), vec![1]);
    assert_eq!(learned_bottom(7, 0), vec![0, 1, 2, 3, 4, 5, 6]);
    assert!(learned_bottom(7, 127).is_empty());
}

#[test]
fn learned_keep_floor_and_bar() {
    assert_eq!(learned_keep_size(0), 7);
    assert_eq!(learned_keep_size(1), 6);
    assert_eq!(learned_keep_size(9), 0);
    assert!(learned_keep(0, true));
    assert!(!learned_keep(0, false));
    assert!(!learned_keep(5, false));
    assert!(learned_keep(6, false), "forced keep — never mulligan to 0");
}

#[test]
fn verdict_names_the_bottomed_cards() {
    let hand = ["Doomsday", "Dark Ritual", "Underground Sea", "Brainstorm", "Ponder", "Force of Will", "Daze"];
    let v = verdict(&hand, false, &vec![6]);
    assert!(!v.keep);
    assert_eq!(v.bottom_if_mulled, vec!["Daze".to_string()]);
    let v = verdict(&hand, true, &vec![6]);
    assert!(v.keep && v.bottom_if_mulled.is_empty(), "empty when kept at 7");
}
