//! The learned mulligan policies, without their floating-point model.
//!
//! Two boosted-tree models score a hand from its property tags (the tag counts over
//! the cards, plus the hand size and play/draw). On top of the score sit keep-bars by
//! hand size: keep iff the best `keep_size`-card subset of the drawn hand clears the bar.
//! This module holds the integer side of that policy: the tag table and the tag counts,
//! the resource counts behind the interactive objective, the enumeration of candidate
//! subsets, the forced keep, the cards to bottom, and the verdict record. The model's
//! scores (floating point) are computed by the caller and enter here as their outcome:
//! which subset scored best, and whether it cleared the bar.

use vstd::prelude::*;
use vstd::string::StringExecFns;

use crate::count::{count_where, lemma_count_step};
use crate::names::same_name;

verus! {

/// Which learned objective to optimize.
#[derive(Clone, Copy, Debug, PartialEq, Eq, Structural)]
pub enum LearnedObjective {
    Speed,
    Interactive,
}

/// Number of property tags.
pub const N_TAGS: usize = 20;

/// The property tags a card adds to a hand's tag vector, in the order they are added
/// (unknown cards add nothing).
pub open spec fn card_tags_of(name: Seq<char>) -> Seq<usize> {
    if name == "Underground Sea"@ {
        seq![0, 1, 2, 3, 5]
    } else if name == "Swamp"@ {
        seq![0, 2, 3, 5]
    } else if name == "Island"@ {
        seq![0, 1, 3, 5]
    } else if name == "Undercity Sewers"@ {
        seq![0, 1, 2, 5, 11, 8]
    } else if name == "Polluted Delta"@ || name == "Flooded Strand"@ || name
        == "Misty Rainforest"@ || name == "Scalding Tarn"@ || name == "Bloodstained Mire"@ {
        seq![0, 1, 2, 3, 4, 5, 11, 8]
    } else if name == "Lotus Petal"@ {
        seq![5, 6, 8]
    } else if name == "Dark Ritual"@ {
        seq![7, 9]
    } else if name == "Ponder"@ {
        seq![14, 9]
    } else if name == "Brainstorm"@ {
        seq![13, 9]
    } else if name == "Consider"@ {
        seq![12, 9]
    } else if name == "Flow State"@ {
        seq![13, 10]
    } else if name == "Street Wraith"@ {
        seq![11, 8]
    } else if name == "Doomsday"@ {
        seq![15]
    } else if name == "Force of Will"@ || name == "Daze"@ || name == "Thoughtseize"@ {
        seq![16]
    } else if name == "Murktide Regent"@ {
        seq![17]
    } else if name == "Wasteland"@ {
        seq![17, 16]
    } else if name == "Tamiyo, Inquisitive Student"@ {
        seq![18]
    } else if name == "Cavern of Souls"@ || name == "Thassa's Oracle"@ || name
        == "Jace, Wielder of Mysteries"@ || name == "Edge of Autumn"@ || name
        == "Lion's Eye Diamond"@ {
        seq![19]
    } else {
        seq![]
    }
}

/// A card adds at most eight tags, each below [`N_TAGS`], and none twice.
pub proof fn lemma_card_tags_bounded(name: Seq<char>)
    ensures
        card_tags_of(name).len() <= 8,
        forall|j: int| 0 <= j < card_tags_of(name).len() ==> #[trigger] card_tags_of(name)[j] < N_TAGS,
        forall|j: int, k: int|
            0 <= j < k < card_tags_of(name).len() ==> card_tags_of(name)[j] != card_tags_of(name)[k],
{
}

/// The property tags `name` adds to a hand's tag vector.
pub fn card_tags(name: &str) -> (tags: Vec<usize>)
    ensures
        tags@ == card_tags_of(name@),
{
    if same_name(name, "Underground Sea") {
        vec![0, 1, 2, 3, 5]
    } else if same_name(name, "Swamp") {
        vec![0, 2, 3, 5]
    } else if same_name(name, "Island") {
        vec![0, 1, 3, 5]
    } else if same_name(name, "Undercity Sewers") {
        vec![0, 1, 2, 5, 11, 8]
    } else if same_name(name, "Polluted Delta") || same_name(name, "Flooded Strand") || same_name(
        name,
        "Misty Rainforest",
    ) || same_name(name, "Scalding Tarn") || same_name(name, "Bloodstained Mire") {
        vec![0, 1, 2, 3, 4, 5, 11, 8]
    } else if same_name(name, "Lotus Petal") {
        vec![5, 6, 8]
    } else if same_name(name, "Dark Ritual") {
        vec![7, 9]
    } else if same_name(name, "Ponder") {
        vec![14, 9]
    } else if same_name(name, "Brainstorm") {
        vec![13, 9]
    } else if same_name(name, "Consider") {
        vec![12, 9]
    } else if same_name(name, "Flow State") {
        vec![13, 10]
    } else if same_name(name, "Street Wraith") {
        vec![11, 8]
    } else if same_name(name, "Doomsday") {
        vec![15]
    } else if same_name(name, "Force of Will") || same_name(name, "Daze") || same_name(
        name,
        "Thoughtseize",
    ) {
        vec![16]
    } else if same_name(name, "Murktide Regent") {
        vec![17]
    } else if same_name(name, "Wasteland") {
        vec![17, 16]
    } else if same_name(name, "Tamiyo, Inquisitive Student") {
        vec![18]
    } else if same_name(name, "Cavern of Souls") || same_name(name, "Thassa's Oracle") || same_name(
        name,
        "Jace, Wielder of Mysteries",
    ) || same_name(name, "Edge of Autumn") || same_name(name, "Lion's Eye Diamond") {
        vec![19]
    } else {
        vec![]
    }
}

/// How often `t` occurs in `tags`.
pub open spec fn occurrences(tags: Seq<usize>, t: usize) -> nat
    decreases tags.len(),
{
    if tags.len() == 0 {
        0
    } else {
        occurrences(tags.drop_last(), t) + (if tags.last() == t { 1nat } else { 0nat })
    }
}

proof fn lemma_occurrences_le_len(tags: Seq<usize>, t: usize)
    ensures
        occurrences(tags, t) <= tags.len(),
    decreases tags.len(),
{
    if tags.len() > 0 {
        lemma_occurrences_le_len(tags.drop_last(), t);
    }
}

/// In a list without repeats, anything occurs at most once.
proof fn lemma_occurrences_distinct(tags: Seq<usize>, t: usize)
    requires
        forall|j: int, k: int| 0 <= j < k < tags.len() ==> tags[j] != tags[k],
    ensures
        occurrences(tags, t) <= 1,
        occurrences(tags, t) == 1 ==> tags.contains(t),
    decreases tags.len(),
{
    if tags.len() > 0 {
        let d = tags.drop_last();
        assert forall|j: int, k: int| 0 <= j < k < d.len() implies d[j] != d[k] by {
            assert(d[j] == tags[j] && d[k] == tags[k]);
        }
        lemma_occurrences_distinct(d, t);
        if occurrences(d, t) == 1 {
            let j = choose|j: int| 0 <= j < d.len() && d[j] == t;
            assert(tags[j] == t);
            assert(tags.last() != t);
        }
        if tags.last() == t {
            assert(tags[tags.len() - 1] == t);
        }
    }
}

/// How many times the cards of a hand add tag `t`.
pub open spec fn tag_total(cards: Seq<Seq<char>>, t: usize) -> nat
    decreases cards.len(),
{
    if cards.len() == 0 {
        0
    } else {
        tag_total(cards.drop_last(), t) + occurrences(card_tags_of(cards.last()), t)
    }
}

/// A tag that a list does not hold occurs in it zero times.
proof fn lemma_occurrences_absent(tags: Seq<usize>, t: usize)
    requires
        !tags.contains(t),
    ensures
        occurrences(tags, t) == 0,
    decreases tags.len(),
{
    if tags.len() > 0 {
        assert(!tags.drop_last().contains(t)) by {
            if tags.drop_last().contains(t) {
                let j = choose|j: int| 0 <= j < tags.drop_last().len() && tags.drop_last()[j] == t;
                assert(tags[j] == t);
            }
        }
        lemma_occurrences_absent(tags.drop_last(), t);
        assert(tags[tags.len() - 1] == tags.last());
    }
}

/// Doomsday adds the payoff tag (15) once; no other card adds it.
proof fn lemma_payoff_tag(name: Seq<char>)
    ensures
        occurrences(card_tags_of(name), 15) == (if name == "Doomsday"@ { 1nat } else { 0nat }),
{
    reveal_strlit("Doomsday");
    reveal_strlit("Underground Sea");
    reveal_strlit("Swamp");
    reveal_strlit("Island");
    reveal_strlit("Undercity Sewers");
    reveal_strlit("Polluted Delta");
    reveal_strlit("Flooded Strand");
    reveal_strlit("Misty Rainforest");
    reveal_strlit("Scalding Tarn");
    reveal_strlit("Bloodstained Mire");
    reveal_strlit("Lotus Petal");
    reveal_strlit("Dark Ritual");
    reveal_strlit("Ponder");
    reveal_strlit("Brainstorm");
    reveal_strlit("Consider");
    reveal_strlit("Flow State");
    reveal_strlit("Street Wraith");
    let tags = card_tags_of(name);
    if name == "Doomsday"@ {
        assert("Doomsday"@.len() != "Underground Sea"@.len() || "Doomsday"@[0] != "Underground Sea"@[0]);
        assert("Doomsday"@.len() != "Swamp"@.len() || "Doomsday"@[0] != "Swamp"@[0]);
        assert("Doomsday"@.len() != "Island"@.len() || "Doomsday"@[0] != "Island"@[0]);
        assert("Doomsday"@.len() != "Undercity Sewers"@.len() || "Doomsday"@[0] != "Undercity Sewers"@[0]);
        assert("Doomsday"@.len() != "Polluted Delta"@.len() || "Doomsday"@[0] != "Polluted Delta"@[0]);
        assert("Doomsday"@.len() != "Flooded Strand"@.len() || "Doomsday"@[0] != "Flooded Strand"@[0]);
        assert("Doomsday"@.len() != "Misty Rainforest"@.len() || "Doomsday"@[0] != "Misty Rainforest"@[0]);
        assert("Doomsday"@.len() != "Scalding Tarn"@.len() || "Doomsday"@[0] != "Scalding Tarn"@[0]);
        assert("Doomsday"@.len() != "Bloodstained Mire"@.len() || "Doomsday"@[0] != "Bloodstained Mire"@[0]);
        assert("Doomsday"@.len() != "Lotus Petal"@.len() || "Doomsday"@[0] != "Lotus Petal"@[0]);
        assert("Doomsday"@.len() != "Dark Ritual"@.len() || "Doomsday"@[0] != "Dark Ritual"@[0]);
        assert("Doomsday"@.len() != "Ponder"@.len() || "Doomsday"@[0] != "Ponder"@[0]);
        assert("Doomsday"@.len() != "Brainstorm"@.len() || "Doomsday"@[0] != "Brainstorm"@[0]);
        assert("Doomsday"@.len() != "Consider"@.len() || "Doomsday"@[0] != "Consider"@[0]);
        assert("Doomsday"@.len() != "Flow State"@.len() || "Doomsday"@[0] != "Flow State"@[0]);
        assert("Doomsday"@.len() != "Street Wraith"@.len() || "Doomsday"@[0] != "Street Wraith"@[0]);
        assert(tags =~= seq![15usize]);
        assert(tags.drop_last() =~= Seq::<usize>::empty());
        assert(occurrences(tags.drop_last(), 15) == 0);
        assert(tags.last() == 15);
    } else {
        assert(!tags.contains(15)) by {
            if tags.contains(15) {
                let j = choose|j: int| 0 <= j < tags.len() && tags[j] == 15;
                assert(tags[j] == 15);
            }
        }
        lemma_occurrences_absent(tags, 15);
    }
}

/// The payoff tag (15) of a hand counts exactly its copies of Doomsday.
pub proof fn law_payoff_tag_counts_doomsday(cards: Seq<Seq<char>>)
    ensures
        tag_total(cards, 15) == count_where(cards, |c: Seq<char>| c == "Doomsday"@),
    decreases cards.len(),
{
    if cards.len() > 0 {
        law_payoff_tag_counts_doomsday(cards.drop_last());
        lemma_payoff_tag(cards.last());
    }
}

/// The names of a hand's cards.
pub open spec fn names_of(cards: Seq<&str>) -> Seq<Seq<char>> {
    cards.map_values(|c: &str| c@)
}

/// A card adds each tag at most once; a hand adds it at most once per card.
proof fn lemma_tag_total_bound(cards: Seq<Seq<char>>, t: usize)
    ensures
        tag_total(cards, t) <= cards.len(),
    decreases cards.len(),
{
    if cards.len() > 0 {
        lemma_tag_total_bound(cards.drop_last(), t);
        lemma_card_tags_bounded(cards.last());
        lemma_occurrences_distinct(card_tags_of(cards.last()), t);
    }
}

/// The hand's tag vector in counts: entry `t` is the number of times the cards add tag `t`.
pub fn tag_counts(cards: &[&str]) -> (counts: Vec<u32>)
    requires
        cards@.len() <= u32::MAX,
    ensures
        counts@.len() == N_TAGS,
        forall|t: int| 0 <= t < N_TAGS ==> #[trigger] counts@[t] == tag_total(names_of(cards@), t as usize),
{
    let ghost names = names_of(cards@);
    let mut counts: Vec<u32> = Vec::new();
    for t in 0..N_TAGS
        invariant
            counts@.len() == t,
            forall|u: int| 0 <= u < t ==> #[trigger] counts@[u] == 0,
    {
        counts.push(0);
    }
    let n = cards.len();
    for i in 0..n
        invariant
            n == cards@.len(),
            n <= u32::MAX,
            names == names_of(cards@),
            counts@.len() == N_TAGS,
            forall|t: int| 0 <= t < N_TAGS ==> #[trigger] counts@[t] == tag_total(names.take(i as int), t as usize),
    {
        let tags = card_tags(cards[i]);
        let ghost before = counts@;
        proof {
            lemma_card_tags_bounded(names[i as int]);
            assert(names.take(i + 1).drop_last() =~= names.take(i as int));
            assert forall|t: int| 0 <= t < N_TAGS implies #[trigger] before[t] <= i by {
                lemma_tag_total_bound(names.take(i as int), t as usize);
            }
        }
        let m = tags.len();
        for j in 0..m
            invariant
                m == tags@.len(),
                tags@ == card_tags_of(names[i as int]),
                m <= 8,
                i < n,
                n <= u32::MAX,
                forall|k: int| 0 <= k < m ==> #[trigger] tags@[k] < N_TAGS,
                forall|a: int, b: int| 0 <= a < b < m ==> tags@[a] != tags@[b],
                counts@.len() == N_TAGS,
                forall|t: int| 0 <= t < N_TAGS ==> #[trigger] before[t] <= i,
                forall|t: int|
                    0 <= t < N_TAGS ==> #[trigger] counts@[t] == before[t] + occurrences(
                        tags@.take(j as int),
                        t as usize,
                    ),
        {
            let t = tags[j];
            proof {
                assert forall|u: int| 0 <= u < N_TAGS implies #[trigger] occurrences(tags@.take(j + 1), u as usize)
                    == occurrences(tags@.take(j as int), u as usize) + (if tags@[j as int] == u { 1nat } else { 0nat }) by {
                    assert(tags@.take(j + 1).drop_last() =~= tags@.take(j as int));
                }
                lemma_occurrences_distinct(tags@.take(j as int), t);
                if occurrences(tags@.take(j as int), t) == 1 {
                    let k = choose|k: int| 0 <= k < j && tags@.take(j as int)[k] == t;
                    assert(tags@[k] == tags@[j as int]);
                }
            }
            counts.set(t, counts[t] + 1);
        }
        proof {
            assert(tags@.take(m as int) =~= tags@);
        }
    }
    proof {
        assert(names.take(n as int) =~= names);
    }
    counts
}

/// Whether the card is blue — usable as a Force-of-Will pitch.
pub open spec fn is_blue_name(name: Seq<char>) -> bool {
    ||| name == "Force of Will"@
    ||| name == "Brainstorm"@
    ||| name == "Ponder"@
    ||| name == "Consider"@
    ||| name == "Flow State"@
    ||| name == "Daze"@
    ||| name == "Murktide Regent"@
    ||| name == "Tamiyo, Inquisitive Student"@
    ||| name == "Jace, Wielder of Mysteries"@
}

/// Blue cards usable as a Force-of-Will pitch (for FoW deployability).
pub fn is_blue(name: &str) -> (r: bool)
    ensures
        r == is_blue_name(name@),
{
    same_name(name, "Force of Will") || same_name(name, "Brainstorm") || same_name(name, "Ponder")
        || same_name(name, "Consider") || same_name(name, "Flow State") || same_name(name, "Daze")
        || same_name(name, "Murktide Regent") || same_name(name, "Tamiyo, Inquisitive Student")
        || same_name(name, "Jace, Wielder of Mysteries")
}

/// The counts behind R, the Doomsday-utility of the resources a hand retains:
/// deployable protection plus clock and backup.
#[derive(Clone, Copy, Debug, PartialEq, Eq, Structural)]
pub struct ResourceCounts {
    /// Blue cards (Force-of-Will pitches, Force itself included).
    pub blue: i32,
    pub force_of_will: i32,
    pub daze: i32,
    pub thoughtseize: i32,
    pub wasteland: i32,
    /// Threat bodies: Tamiyo and Murktide Regent.
    pub clock: i32,
    pub doomsday: i32,
}

/// How many of the named cards are `name`.
pub open spec fn copies(cards: Seq<&str>, name: Seq<char>) -> nat {
    count_where(cards, |c: &str| c@ == name)
}

/// The resource counts of a hand.
pub open spec fn resource_counts_of(cards: Seq<&str>) -> ResourceCounts {
    ResourceCounts {
        blue: count_where(cards, |c: &str| is_blue_name(c@)) as i32,
        force_of_will: copies(cards, "Force of Will"@) as i32,
        daze: copies(cards, "Daze"@) as i32,
        thoughtseize: copies(cards, "Thoughtseize"@) as i32,
        wasteland: copies(cards, "Wasteland"@) as i32,
        clock: count_where(
            cards,
            |c: &str| c@ == "Tamiyo, Inquisitive Student"@ || c@ == "Murktide Regent"@,
        ) as i32,
        doomsday: copies(cards, "Doomsday"@) as i32,
    }
}

impl ResourceCounts {
    /// Force of Will is deployable at full value only with a blue pitch other than a Force.
    pub open spec fn spec_force_deployable(self) -> bool {
        self.blue > self.force_of_will
    }

    /// Clock and backup: the threat bodies plus every Doomsday beyond the first.
    pub open spec fn spec_clock_and_backup(self) -> int {
        self.clock + (if self.doomsday >= 1 { self.doomsday - 1 } else { 0 })
    }

    /// Force of Will is deployable at full value only with a blue pitch other than a Force.
    pub fn force_deployable(&self) -> (r: bool)
        ensures
            r == self.spec_force_deployable(),
    {
        self.blue > self.force_of_will
    }

    /// Clock and backup: the threat bodies plus every Doomsday beyond the first.
    pub fn clock_and_backup(&self) -> (r: i32)
        requires
            self.doomsday > i32::MIN,
            i32::MIN <= self.spec_clock_and_backup() <= i32::MAX,
        ensures
            r == self.spec_clock_and_backup(),
    {
        let extra = if self.doomsday - 1 > 0 {
            self.doomsday - 1
        } else {
            0
        };
        self.clock + extra
    }
}

/// Count the resources a hand retains (see [`ResourceCounts`]).
pub fn resource_counts(cards: &[&str]) -> (r: ResourceCounts)
    requires
        cards@.len() <= i32::MAX,
    ensures
        r == resource_counts_of(cards@),
        0 <= r.clock,
        0 <= r.doomsday,
        r.clock + r.doomsday <= cards@.len(),
{
    let (mut fow, mut daze, mut ts, mut waste, mut clock, mut blue): (i32, i32, i32, i32, i32, i32) = (
        0,
        0,
        0,
        0,
        0,
        0,
    );
    let mut dd: i32 = 0;
    let n = cards.len();
    let ghost cs = cards@;
    for i in 0..n
        invariant
            n == cs.len(),
            cs == cards@,
            n <= i32::MAX,
            blue == count_where(cs.take(i as int), |c: &str| is_blue_name(c@)),
            fow == copies(cs.take(i as int), "Force of Will"@),
            daze == copies(cs.take(i as int), "Daze"@),
            ts == copies(cs.take(i as int), "Thoughtseize"@),
            waste == copies(cs.take(i as int), "Wasteland"@),
            clock == count_where(
                cs.take(i as int),
                |c: &str| c@ == "Tamiyo, Inquisitive Student"@ || c@ == "Murktide Regent"@,
            ),
            dd == copies(cs.take(i as int), "Doomsday"@),
            blue <= i,
            fow + daze + ts + waste + clock + dd <= i,
    {
        let c = cards[i];
        proof {
            lemma_count_step(cs, |c: &str| is_blue_name(c@), i as int);
            lemma_count_step(cs, |c: &str| c@ == "Force of Will"@, i as int);
            lemma_count_step(cs, |c: &str| c@ == "Daze"@, i as int);
            lemma_count_step(cs, |c: &str| c@ == "Thoughtseize"@, i as int);
            lemma_count_step(cs, |c: &str| c@ == "Wasteland"@, i as int);
            lemma_count_step(
                cs,
                |c: &str| c@ == "Tamiyo, Inquisitive Student"@ || c@ == "Murktide Regent"@,
                i as int,
            );
            lemma_count_step(cs, |c: &str| c@ == "Doomsday"@, i as int);
            reveal_strlit("Force of Will");
            reveal_strlit("Daze");
            reveal_strlit("Thoughtseize");
            reveal_strlit("Wasteland");
            reveal_strlit("Tamiyo, Inquisitive Student");
            reveal_strlit("Murktide Regent");
            reveal_strlit("Doomsday");
            assert("Force of Will"@.len() == 13);
            assert("Daze"@.len() == 4);
            assert("Thoughtseize"@.len() == 12);
            assert("Wasteland"@.len() == 9);
            assert("Tamiyo, Inquisitive Student"@.len() == 27);
            assert("Murktide Regent"@.len() == 15);
            assert("Doomsday"@.len() == 8);
        }
        if is_blue(c) {
            blue = blue + 1;
        }
        if same_name(c, "Force of Will") {
            fow = fow + 1;
        }
        if same_name(c, "Daze") {
            daze = daze + 1;
        }
        if same_name(c, "Thoughtseize") {
            ts = ts + 1;
        }
        if same_name(c, "Wasteland") {
            waste = waste + 1;
        }
        if same_name(c, "Tamiyo, Inquisitive Student") || same_name(c, "Murktide Regent") {
            clock = clock + 1;
        }
        if same_name(c, "Doomsday") {
            dd = dd + 1;
        }
    }
    proof {
        assert(cs.take(n as int) =~= cs);
    }
    ResourceCounts {
        blue,
        force_of_will: fow,
        daze,
        thoughtseize: ts,
        wasteland: waste,
        clock,
        doomsday: dd,
    }
}

// ── subsets of the drawn hand, as bitmasks over card positions ──

/// Card `i` is in the subset `mask`.
pub open spec fn has_bit(mask: u32, i: u32) -> bool {
    (mask >> i) & 1u32 == 1u32
}

/// How many of the first `n` positions are in `mask`.
pub open spec fn popcount(mask: u32, n: nat) -> nat
    decreases n,
{
    if n == 0 {
        0
    } else {
        popcount(mask, (n - 1) as nat) + (if has_bit(mask, (n - 1) as u32) { 1nat } else { 0nat })
    }
}

/// Number of the first `n` positions in `mask`.
pub fn subset_size(mask: u32, n: usize) -> (c: usize)
    requires
        n <= 32,
    ensures
        c == popcount(mask, n as nat),
        c <= n,
{
    let mut c: usize = 0;
    for i in 0..n
        invariant
            n <= 32,
            c == popcount(mask, i as nat),
            c <= i,
    {
        if (mask >> (i as u32)) & 1u32 == 1u32 {
            c = c + 1;
        }
    }
    c
}

/// Every subset of the `n` drawn cards with exactly `keep_size` cards, as bitmasks in
/// increasing order.
pub fn subset_masks(n: usize, keep_size: usize) -> (masks: Vec<u32>)
    requires
        n < 32,
    ensures
        forall|j: int|
            0 <= j < masks@.len() ==> #[trigger] masks@[j] < (1u32 << n as u32) && popcount(
                masks@[j],
                n as nat,
            ) == keep_size,
        forall|j: int, k: int| 0 <= j < k < masks@.len() ==> masks@[j] < masks@[k],
        forall|m: u32|
            m < (1u32 << n as u32) && popcount(m, n as nat) == keep_size ==> #[trigger] masks@.contains(m),
{
    let limit: u32 = 1u32 << (n as u32);
    let mut masks: Vec<u32> = Vec::new();
    let mut mask: u32 = 0;
    while mask < limit
        invariant
            n < 32,
            limit == (1u32 << n as u32),
            mask <= limit,
            forall|j: int|
                0 <= j < masks@.len() ==> #[trigger] masks@[j] < mask && popcount(masks@[j], n as nat)
                    == keep_size,
            forall|j: int, k: int| 0 <= j < k < masks@.len() ==> masks@[j] < masks@[k],
            forall|m: u32| m < mask && popcount(m, n as nat) == keep_size ==> #[trigger] masks@.contains(m),
        decreases limit - mask,
    {
        if subset_size(mask, n) == keep_size {
            let ghost old_masks = masks@;
            masks.push(mask);
            proof {
                assert(masks@[masks@.len() - 1] == mask);
                assert forall|m: u32| m < mask + 1 && popcount(m, n as nat) == keep_size implies #[trigger] masks@.contains(m) by {
                    if m < mask {
                        assert(old_masks.contains(m));
                        let j = choose|j: int| 0 <= j < old_masks.len() && old_masks[j] == m;
                        assert(masks@[j] == m);
                    } else {
                        assert(masks@[masks@.len() - 1] == m);
                    }
                }
            }
        } else {
            proof {
                assert forall|m: u32| m < mask + 1 && popcount(m, n as nat) == keep_size implies #[trigger] masks@.contains(m) by {
                    assert(m != mask);
                }
            }
        }
        mask = mask + 1;
    }
    masks
}

/// The positions among the first `n` that are in `mask` (`member`) or not in it, in
/// increasing order.
pub open spec fn positions(mask: u32, n: nat, member: bool) -> Seq<usize>
    decreases n,
{
    if n == 0 {
        seq![]
    } else {
        let before = positions(mask, (n - 1) as nat, member);
        if has_bit(mask, (n - 1) as u32) == member {
            before.push((n - 1) as usize)
        } else {
            before
        }
    }
}

/// There are `popcount` member positions and `n - popcount` others.
pub proof fn lemma_positions_len(mask: u32, n: nat)
    ensures
        positions(mask, n, true).len() == popcount(mask, n),
        positions(mask, n, false).len() + popcount(mask, n) == n,
    decreases n,
{
    if n > 0 {
        lemma_positions_len(mask, (n - 1) as nat);
    }
}

/// Positions are increasing, below `n`, and are exactly the positions with the given
/// membership.
pub proof fn lemma_positions_content(mask: u32, n: nat, member: bool)
    requires
        n <= 32,
    ensures
        forall|j: int, k: int|
            0 <= j < k < positions(mask, n, member).len() ==> positions(mask, n, member)[j] < positions(
                mask,
                n,
                member,
            )[k],
        forall|j: int|
            0 <= j < positions(mask, n, member).len() ==> #[trigger] positions(mask, n, member)[j] < n
                && has_bit(mask, positions(mask, n, member)[j] as u32) == member,
        forall|i: int|
            0 <= i < n && has_bit(mask, i as u32) == member ==> #[trigger] positions(
                mask,
                n,
                member,
            ).contains(i as usize),
    decreases n,
{
    if n > 0 {
        lemma_positions_content(mask, (n - 1) as nat, member);
        let before = positions(mask, (n - 1) as nat, member);
        assert forall|i: int|
            0 <= i < n && has_bit(mask, i as u32) == member implies #[trigger] positions(
            mask,
            n,
            member,
        ).contains(i as usize) by {
            if i < n - 1 {
                assert(before.contains(i as usize));
                let j = choose|j: int| 0 <= j < before.len() && before[j] == i as usize;
                assert(positions(mask, n, member)[j] == i as usize);
            } else {
                let p = positions(mask, n, member);
                assert(p[p.len() - 1] == i as usize);
            }
        }
    }
}

/// The positions among the first `n` whose membership in `mask` is `member`.
fn positions_exec(mask: u32, n: usize, member: bool) -> (r: Vec<usize>)
    requires
        n <= 32,
    ensures
        r@ == positions(mask, n as nat, member),
{
    let mut r: Vec<usize> = Vec::new();
    for i in 0..n
        invariant
            n <= 32,
            r@ == positions(mask, i as nat, member),
    {
        if (((mask >> (i as u32)) & 1u32) == 1u32) == member {
            r.push(i);
        }
    }
    r
}

/// The positions of the cards in the subset `mask` of the `n` drawn cards, in hand order.
pub fn kept_indices(n: usize, mask: u32) -> (kept: Vec<usize>)
    requires
        n <= 32,
    ensures
        kept@ == positions(mask, n as nat, true),
        kept@.len() == popcount(mask, n as nat),
{
    proof {
        lemma_positions_len(mask, n as nat);
    }
    positions_exec(mask, n, true)
}

/// Which of the `n` drawn cards go to the bottom when the subset `keep_mask` is kept:
/// every position not in the subset, in hand order.
pub fn learned_bottom(n: usize, keep_mask: u32) -> (bottom: Vec<usize>)
    requires
        n <= 32,
    ensures
        bottom@ == positions(keep_mask, n as nat, false),
        bottom@.len() == n - popcount(keep_mask, n as nat),
{
    proof {
        lemma_positions_len(keep_mask, n as nat);
    }
    positions_exec(keep_mask, n, false)
}

/// The kept hand size after `mulls` London mulligans (you hold 7, bottom `mulls`).
pub open spec fn spec_keep_size(mulls: u32) -> int {
    if mulls >= 7 {
        0
    } else {
        7 - mulls
    }
}

/// The kept hand size after `mulls` London mulligans.
pub fn learned_keep_size(mulls: u32) -> (k: usize)
    ensures
        k == spec_keep_size(mulls),
{
    if mulls >= 7 {
        0
    } else {
        7 - mulls as usize
    }
}

/// The learned keep decision at `mulls` mulligans: a hand of one card or fewer is always
/// kept (never mulligan to 0); otherwise keep iff the best subset of the kept size
/// cleared that size's bar (`best_clears_bar`).
pub fn learned_keep(mulls: u32, best_clears_bar: bool) -> (keep: bool)
    ensures
        keep == (spec_keep_size(mulls) <= 1 || best_clears_bar),
{
    let keep_size = learned_keep_size(mulls);
    if keep_size <= 1 {
        return true;  // forced keep — never mulligan to 0
    }
    best_clears_bar
}

/// A policy's verdict on an opening 7: keep, or mulligan and bottom these cards.
#[derive(Clone, Debug)]
pub struct Verdict {
    pub keep: bool,
    /// Cards to bottom if this is kept after one mulligan (the best-6 hint); empty when
    /// kept at 7.
    pub bottom_if_mulled: Vec<String>,
}

/// The verdict record: the keep decision and, for a mulligan, the names of the cards at
/// the `bottom` positions, in that order (empty when the 7 is kept).
pub fn verdict(hand: &[&str], keep: bool, bottom: &Vec<usize>) -> (v: Verdict)
    requires
        !keep ==> forall|j: int| 0 <= j < bottom@.len() ==> #[trigger] bottom@[j] < hand@.len(),
    ensures
        v.keep == keep,
        keep ==> v.bottom_if_mulled@.len() == 0,
        !keep ==> v.bottom_if_mulled@.len() == bottom@.len(),
        !keep ==> forall|j: int|
            0 <= j < bottom@.len() ==> #[trigger] v.bottom_if_mulled@[j]@ == hand@[bottom@[j] as int]@,
{
    let mut names: Vec<String> = Vec::new();
    if keep {
        return Verdict { keep, bottom_if_mulled: names };
    }
    let m = bottom.len();
    for j in 0..m
        invariant
            m == bottom@.len(),
            forall|k: int| 0 <= k < bottom@.len() ==> #[trigger] bottom@[k] < hand@.len(),
            names@.len() == j,
            forall|k: int| 0 <= k < j ==> #[trigger] names@[k]@ == hand@[bottom@[k] as int]@,
    {
        let i = bottom[j];
        names.push(String::from_str(hand[i]));
    }
    Verdict { keep, bottom_if_mulled: names }
}

/// Keeping a subset and bottoming the rest partitions the drawn hand: every position is
/// kept or bottomed, never both, and the counts add up to the hand size.
pub proof fn law_keep_and_bottom_partition(n: nat, mask: u32)
    requires
        n <= 32,
    ensures
        positions(mask, n, true).len() + positions(mask, n, false).len() == n,
        forall|i: int|
            0 <= i < n ==> (#[trigger] positions(mask, n, true).contains(i as usize)) != positions(
                mask,
                n,
                false,
            ).contains(i as usize),
{
    lemma_positions_len(mask, n);
    lemma_positions_content(mask, n, true);
    lemma_positions_content(mask, n, false);
    assert forall|i: int|
        0 <= i < n implies (#[trigger] positions(mask, n, true).contains(i as usize)) != positions(
        mask,
        n,
        false,
    ).contains(i as usize) by {
        if positions(mask, n, true).contains(i as usize) {
            let j = choose|j: int|
                0 <= j < positions(mask, n, true).len() && positions(mask, n, true)[j] == i as usize;
            assert(has_bit(mask, positions(mask, n, true)[j] as u32));
            if positions(mask, n, false).contains(i as usize) {
                let k = choose|k: int|
                    0 <= k < positions(mask, n, false).len() && positions(mask, n, false)[k]
                        == i as usize;
                assert(!has_bit(mask, positions(mask, n, false)[k] as u32));
            }
        }
    }
}

/// Bottoming against a candidate subset of the kept size puts exactly the difference on
/// the bottom: with `keep_size` cards kept out of `n`, `n - keep_size` go to the bottom.
pub proof fn law_bottom_count(n: nat, keep_size: nat, mask: u32)
    requires
        n <= 32,
        popcount(mask, n) == keep_size,
    ensures
        positions(mask, n, false).len() == n - keep_size,
        positions(mask, n, true).len() == keep_size,
{
    lemma_positions_len(mask, n);
}

/// The learned policies never mulligan to zero: from six mulligans on, the kept size is
/// at most one card, so [`learned_keep`] keeps whatever the bar says.
pub proof fn law_learned_forced_keep(mulls: u32)
    requires
        mulls >= 6,
    ensures
        spec_keep_size(mulls) <= 1,
{
}

} // verus!
