//! Doomsday goldfish: decklists, the run objective, and the per-game bookkeeping.
//!
//! The opponent is inert; the Doomsday player races to cast Doomsday (or, in the
//! two-wincon mode, to pop The Fantasticar). The games themselves are played by the
//! rules engine; this module decides when a run ends, what is recorded of each game,
//! and deals the random opening hands of the per-hand explorer.

use vstd::prelude::*;
use vstd::string::StringExecFns;

use crate::count::{count_where, lemma_count_le_len, lemma_count_step};
use crate::mull::{is_air, is_air_name};
use crate::names::{names, same_name};
use crate::random::{choose_multiple, shuffle};
use rand::rngs::SmallRng;
use std::collections::BTreeMap;

verus! {

/// One decklist entry: card name, quantity, board ("main", "side", ...).
pub type DeckEntry = (String, i32, String);

/// The names, quantities and boards of a decklist.
pub open spec fn deck_view(deck: Seq<DeckEntry>) -> Seq<(Seq<char>, i32, Seq<char>)> {
    deck.map_values(|e: DeckEntry| (e.0@, e.1, e.2@))
}

/// Total number of cards listed (quantities summed).
pub open spec fn deck_total(deck: Seq<(Seq<char>, i32, Seq<char>)>) -> int
    decreases deck.len(),
{
    if deck.len() == 0 {
        0
    } else {
        deck_total(deck.drop_last()) + deck.last().1
    }
}

/// Append a mainboard entry to a decklist under construction.
fn push_main(deck: &mut Vec<DeckEntry>, name: &str, qty: i32)
    ensures
        deck_view(final(deck)@) == deck_view(old(deck)@).push((name@, qty, "main"@)),
        deck_total(deck_view(final(deck)@)) == deck_total(deck_view(old(deck)@)) + qty,
{
    deck.push((String::from_str(name), qty, String::from_str("main")));
    proof {
        assert(deck_view(deck@) =~= deck_view(old(deck)@).push((name@, qty, "main"@)));
        assert(deck_view(deck@).drop_last() =~= deck_view(old(deck)@));
    }
}

/// The sample Doomsday list (a 60-card tempo Doomsday mainboard).
pub open spec fn sample_deck_list() -> Seq<(Seq<char>, i32, Seq<char>)> {
    seq![
        ("Underground Sea"@, 3i32, "main"@),
        ("Polluted Delta"@, 4i32, "main"@),
        ("Flooded Strand"@, 1i32, "main"@),
        ("Misty Rainforest"@, 1i32, "main"@),
        ("Scalding Tarn"@, 1i32, "main"@),
        ("Marsh Flats"@, 1i32, "main"@),
        ("Island"@, 1i32, "main"@),
        ("Swamp"@, 1i32, "main"@),
        ("Undercity Sewers"@, 2i32, "main"@),
        ("Wasteland"@, 3i32, "main"@),
        ("Cavern of Souls"@, 1i32, "main"@),
        ("Lotus Petal"@, 2i32, "main"@),
        ("Lion's Eye Diamond"@, 1i32, "main"@),
        ("Dark Ritual"@, 4i32, "main"@),
        ("Doomsday"@, 4i32, "main"@),
        ("Brainstorm"@, 4i32, "main"@),
        ("Ponder"@, 4i32, "main"@),
        ("Consider"@, 1i32, "main"@),
        ("Edge of Autumn"@, 1i32, "main"@),
        ("Force of Will"@, 4i32, "main"@),
        ("Daze"@, 3i32, "main"@),
        ("Thoughtseize"@, 2i32, "main"@),
        ("Street Wraith"@, 1i32, "main"@),
        ("Thassa's Oracle"@, 1i32, "main"@),
        ("Unearth"@, 1i32, "main"@),
        ("Tamiyo, Inquisitive Student"@, 4i32, "main"@),
        ("Orcish Bowmasters"@, 2i32, "main"@),
        ("Murktide Regent"@, 2i32, "main"@),
    ]
}

/// A sample Doomsday decklist, used by the CLI and tests.
pub fn sample_doomsday_deck() -> (deck: Vec<DeckEntry>)
    ensures
        deck_view(deck@) == sample_deck_list(),
        deck_total(deck_view(deck@)) == 60,
{
    let mut d: Vec<DeckEntry> = Vec::new();
    assert(deck_view(d@) =~= Seq::empty());
    push_main(&mut d, "Underground Sea", 3);
    push_main(&mut d, "Polluted Delta", 4);
    push_main(&mut d, "Flooded Strand", 1);
    push_main(&mut d, "Misty Rainforest", 1);
    push_main(&mut d, "Scalding Tarn", 1);
    push_main(&mut d, "Marsh Flats", 1);
    push_main(&mut d, "Island", 1);
    push_main(&mut d, "Swamp", 1);
    push_main(&mut d, "Undercity Sewers", 2);
    push_main(&mut d, "Wasteland", 3);
    push_main(&mut d, "Cavern of Souls", 1);
    push_main(&mut d, "Lotus Petal", 2);
    push_main(&mut d, "Lion's Eye Diamond", 1);
    push_main(&mut d, "Dark Ritual", 4);
    push_main(&mut d, "Doomsday", 4);
    push_main(&mut d, "Brainstorm", 4);
    push_main(&mut d, "Ponder", 4);
    push_main(&mut d, "Consider", 1);
    push_main(&mut d, "Edge of Autumn", 1);
    push_main(&mut d, "Force of Will", 4);
    push_main(&mut d, "Daze", 3);
    push_main(&mut d, "Thoughtseize", 2);
    push_main(&mut d, "Street Wraith", 1);
    push_main(&mut d, "Thassa's Oracle", 1);
    push_main(&mut d, "Unearth", 1);
    push_main(&mut d, "Tamiyo, Inquisitive Student", 4);
    push_main(&mut d, "Orcish Bowmasters", 2);
    push_main(&mut d, "Murktide Regent", 2);
    d
}

/// "vroomsday 8 guys" — Legacy Doomsday + The Fantasticar, 60-card mainboard.
pub open spec fn vroomsday_list() -> Seq<(Seq<char>, i32, Seq<char>)> {
    seq![
        ("Underground Sea"@, 4i32, "main"@),
        ("Polluted Delta"@, 4i32, "main"@),
        ("Verdant Catacombs"@, 1i32, "main"@),
        ("Flooded Strand"@, 1i32, "main"@),
        ("Misty Rainforest"@, 1i32, "main"@),
        ("Scalding Tarn"@, 1i32, "main"@),
        ("Island"@, 1i32, "main"@),
        ("Swamp"@, 1i32, "main"@),
        ("Undercity Sewers"@, 1i32, "main"@),
        ("Cavern of Souls"@, 1i32, "main"@),
        ("Lotus Petal"@, 4i32, "main"@),
        ("Lion's Eye Diamond"@, 1i32, "main"@),
        ("Mishra's Bauble"@, 4i32, "main"@),
        ("Dark Ritual"@, 4i32, "main"@),
        ("Doomsday"@, 4i32, "main"@),
        ("The Fantasticar"@, 4i32, "main"@),
        ("Brainstorm"@, 4i32, "main"@),
        ("Ponder"@, 4i32, "main"@),
        ("Consider"@, 1i32, "main"@),
        ("Edge of Autumn"@, 1i32, "main"@),
        ("Street Wraith"@, 1i32, "main"@),
        ("Force of Will"@, 4i32, "main"@),
        ("Daze"@, 4i32, "main"@),
        ("Thoughtseize"@, 3i32, "main"@),
        ("Thassa's Oracle"@, 1i32, "main"@),
    ]
}

/// "vroomsday 8 guys" — the Legacy Doomsday + The Fantasticar list, 60-card mainboard.
/// Two payoffs: resolve Doomsday, or pop The Fantasticar off its fourth-noncreature-spell
/// trigger.
pub fn vroomsday_deck() -> (deck: Vec<DeckEntry>)
    ensures
        deck_view(deck@) == vroomsday_list(),
        deck_total(deck_view(deck@)) == 60,
{
    let mut d: Vec<DeckEntry> = Vec::new();
    assert(deck_view(d@) =~= Seq::empty());
    push_main(&mut d, "Underground Sea", 4);
    push_main(&mut d, "Polluted Delta", 4);
    push_main(&mut d, "Verdant Catacombs", 1);
    push_main(&mut d, "Flooded Strand", 1);
    push_main(&mut d, "Misty Rainforest", 1);
    push_main(&mut d, "Scalding Tarn", 1);
    push_main(&mut d, "Island", 1);
    push_main(&mut d, "Swamp", 1);
    push_main(&mut d, "Undercity Sewers", 1);
    push_main(&mut d, "Cavern of Souls", 1);
    push_main(&mut d, "Lotus Petal", 4);
    push_main(&mut d, "Lion's Eye Diamond", 1);
    push_main(&mut d, "Mishra's Bauble", 4);
    push_main(&mut d, "Dark Ritual", 4);
    push_main(&mut d, "Doomsday", 4);
    push_main(&mut d, "The Fantasticar", 4);
    push_main(&mut d, "Brainstorm", 4);
    push_main(&mut d, "Ponder", 4);
    push_main(&mut d, "Consider", 1);
    push_main(&mut d, "Edge of Autumn", 1);
    push_main(&mut d, "Street Wraith", 1);
    push_main(&mut d, "Force of Will", 4);
    push_main(&mut d, "Daze", 4);
    push_main(&mut d, "Thoughtseize", 3);
    push_main(&mut d, "Thassa's Oracle", 1);
    d
}

/// The deck as a flat list of card names: each entry's name repeated its quantity times
/// (a negative quantity counts as zero), in list order.
pub open spec fn deck_pool(deck: Seq<(Seq<char>, i32, Seq<char>)>) -> Seq<Seq<char>>
    decreases deck.len(),
{
    if deck.len() == 0 {
        seq![]
    } else {
        let e = deck.last();
        deck_pool(deck.drop_last()) + Seq::new(
            (if e.1 > 0 { e.1 as nat } else { 0nat }),
            |_i: int| e.0,
        )
    }
}

/// Expand a decklist into the flat list of its cards (see [`deck_pool`]).
pub fn expand_deck(deck: &[DeckEntry]) -> (pool: Vec<String>)
    ensures
        names(pool@) == deck_pool(deck_view(deck@)),
{
    let ghost dv = deck_view(deck@);
    let mut pool: Vec<String> = Vec::new();
    let n = deck.len();
    for i in 0..n
        invariant
            n == deck@.len(),
            dv == deck_view(deck@),
            names(pool@) == deck_pool(dv.take(i as int)),
    {
        let name = &deck[i].0;
        let count = deck[i].1;
        let ghost start = names(pool@);
        let copies: i32 = if count > 0 {
            count
        } else {
            0
        };
        for _k in 0..copies
            invariant
                names(pool@) == start + Seq::new((_k as nat), |_j: int| name@),
        {
            let ghost before = names(pool@);
            pool.push(name.clone());
            proof {
                assert(names(pool@) =~= before.push(name@));
                assert(start + Seq::new(((_k + 1) as nat), |_j: int| name@) =~= (start + Seq::new(
                    (_k as nat),
                    |_j: int| name@,
                )).push(name@));
            }
        }
        proof {
            assert(dv.take(i + 1).drop_last() =~= dv.take(i as int));
            assert(dv.take(i + 1).last() == dv[i as int]);
            assert(names(pool@) =~= deck_pool(dv.take(i + 1)));
        }
    }
    proof {
        assert(dv.take(n as int) =~= dv);
    }
    pool
}

/// Draw `n` random opening 7-card hands from `deck` with `rng` (for the per-hand
/// explorer). Each hand is seven cards at distinct positions of the deck (all of them
/// for a smaller deck); which cards depends on the random generator.
pub fn deal_opening_hands(deck: &[DeckEntry], n: usize, rng: &mut SmallRng) -> (hands: Vec<Vec<String>>)
    ensures
        hands@.len() == n,
        forall|h: int|
            0 <= h < n ==> {
                let pool_len = deck_pool(deck_view(deck@)).len();
                &&& #[trigger] hands@[h]@.len() == (if pool_len < 7 { pool_len as int } else { 7 })
                &&& names(hands@[h]@).to_multiset().subset_of(deck_pool(deck_view(deck@)).to_multiset())
            },
{
    let pool = expand_deck(deck);
    let mut hands: Vec<Vec<String>> = Vec::new();
    for k in 0..n
        invariant
            hands@.len() == k,
            names(pool@) == deck_pool(deck_view(deck@)),
            forall|h: int|
                0 <= h < k ==> {
                    let pool_len = deck_pool(deck_view(deck@)).len();
                    &&& #[trigger] hands@[h]@.len() == (if pool_len < 7 { pool_len as int } else { 7 })
                    &&& names(hands@[h]@).to_multiset().subset_of(deck_pool(deck_view(deck@)).to_multiset())
                },
    {
        let hand = choose_multiple(&pool, rng, 7);
        hands.push(hand);
    }
    hands
}

/// The mainboard of a decklist as a flat list of card names: each "main" entry's name
/// repeated its quantity times (a negative quantity counts as zero), in list order.
pub open spec fn main_pool(deck: Seq<(Seq<char>, i32, Seq<char>)>) -> Seq<Seq<char>>
    decreases deck.len(),
{
    if deck.len() == 0 {
        seq![]
    } else {
        let e = deck.last();
        main_pool(deck.drop_last()) + Seq::new(
            (if e.2 == "main"@ && e.1 > 0 { e.1 as nat } else { 0nat }),
            |_i: int| e.0,
        )
    }
}

/// Expand the mainboard of a decklist into the flat list of its cards (see
/// [`main_pool`]).
pub fn expand_main_board(deck: &[DeckEntry]) -> (pool: Vec<String>)
    ensures
        names(pool@) == main_pool(deck_view(deck@)),
{
    let ghost dv = deck_view(deck@);
    let mut pool: Vec<String> = Vec::new();
    let n = deck.len();
    for i in 0..n
        invariant
            n == deck@.len(),
            dv == deck_view(deck@),
            names(pool@) == main_pool(dv.take(i as int)),
    {
        let name = &deck[i].0;
        let count = deck[i].1;
        let main = same_name(deck[i].2.as_str(), "main");
        let ghost start = names(pool@);
        let copies: i32 = if main && count > 0 {
            count
        } else {
            0
        };
        for _k in 0..copies
            invariant
                names(pool@) == start + Seq::new((_k as nat), |_j: int| name@),
        {
            let ghost before = names(pool@);
            pool.push(name.clone());
            proof {
                assert(names(pool@) =~= before.push(name@));
                assert(start + Seq::new(((_k + 1) as nat), |_j: int| name@) =~= (start + Seq::new(
                    (_k as nat),
                    |_j: int| name@,
                )).push(name@));
            }
        }
        proof {
            assert(dv.take(i + 1).drop_last() =~= dv.take(i as int));
            assert(dv.take(i + 1).last() == dv[i as int]);
            assert(names(pool@) =~= main_pool(dv.take(i + 1)));
        }
    }
    proof {
        assert(dv.take(n as int) =~= dv);
    }
    pool
}

/// Cards seen by the first main phase: seven on the play, eight on the draw.
pub open spec fn seen_by_first_main(on_draw: bool) -> int {
    if on_draw {
        8
    } else {
        7
    }
}

/// The number of opening cards dealt from a deck of `len` cards.
pub open spec fn opening_len(len: int, on_draw: bool) -> int {
    if len < seen_by_first_main(on_draw) {
        len
    } else {
        seen_by_first_main(on_draw)
    }
}

/// The opening cards of a shuffled deck: its first seven (eight on the draw), or all of
/// it when it is smaller.
pub fn opening_cards(shuffled: &[String], on_draw: bool) -> (hand: Vec<String>)
    ensures
        names(hand@) == names(shuffled@).take(opening_len(shuffled@.len() as int, on_draw)),
{
    let size: usize = if on_draw {
        8
    } else {
        7
    };
    let k: usize = if shuffled.len() < size {
        shuffled.len()
    } else {
        size
    };
    let mut hand: Vec<String> = Vec::new();
    for i in 0..k
        invariant
            k <= shuffled@.len(),
            names(hand@) == names(shuffled@).take(i as int),
    {
        let ghost before = names(hand@);
        hand.push(shuffled[i].clone());
        proof {
            assert(names(hand@) =~= before.push(shuffled@[i as int]@));
            assert(names(shuffled@).take(i + 1) =~= names(shuffled@).take(i as int).push(
                shuffled@[i as int]@,
            ));
        }
    }
    hand
}

/// Deal one hand for the deterministic send report: shuffle the mainboard `pool` with
/// `rng` and take its opening cards (see [`opening_cards`]). The hand is that many cards
/// of the pool; which ones depends on the generator.
pub fn deal_send_hand(pool: &Vec<String>, on_draw: bool, rng: &mut SmallRng) -> (hand: Vec<String>)
    ensures
        hand@.len() == opening_len(pool@.len() as int, on_draw),
        names(hand@).to_multiset().subset_of(names(pool@).to_multiset()),
{
    let mut shuffled = pool.clone();
    proof {
        assert(shuffled@ =~= pool@);
    }
    shuffle(&mut shuffled, rng);
    let hand = opening_cards(shuffled.as_slice(), on_draw);
    proof {
        let sn = names(shuffled@);
        let k = opening_len(shuffled@.len() as int, on_draw);
        assert(sn =~= sn.take(k) + sn.skip(k));
        vstd::seq_lib::lemma_multiset_commutative(sn.take(k), sn.skip(k));
    }
    hand
}

/// The number of copies of each of `cards` in `hand`, by name, in the order of `cards`
/// (one row of the keep-all-7 dataset).
pub fn card_counts(cards: &[String], hand: &[String]) -> (counts: Vec<usize>)
    ensures
        counts@.len() == cards@.len(),
        forall|j: int|
            0 <= j < cards@.len() ==> #[trigger] counts@[j] == count_where(
                names(hand@),
                |c: Seq<char>| c == cards@[j]@,
            ),
{
    let ghost hn = names(hand@);
    let mut counts: Vec<usize> = Vec::new();
    let m = cards.len();
    for j in 0..m
        invariant
            m == cards@.len(),
            hn == names(hand@),
            counts@.len() == j,
            forall|q: int|
                0 <= q < j ==> #[trigger] counts@[q] == count_where(
                    hn,
                    |c: Seq<char>| c == cards@[q]@,
                ),
    {
        let ghost target = cards@[j as int]@;
        let mut n: usize = 0;
        let len = hand.len();
        for i in 0..len
            invariant
                len == hand@.len(),
                hn == names(hand@),
                j < m,
                m == cards@.len(),
                target == cards@[j as int]@,
                n == count_where(hn.take(i as int), |c: Seq<char>| c == target),
                n <= i,
        {
            proof {
                lemma_count_step(hn, |c: Seq<char>| c == target, i as int);
            }
            if same_name(hand[i].as_str(), cards[j].as_str()) {
                n = n + 1;
            }
        }
        proof {
            assert(hn.take(len as int) =~= hn);
            assert((|c: Seq<char>| c == target) =~= (|c: Seq<char>| c == cards@[j as int]@));
        }
        counts.push(n);
    }
    counts
}

/// The most games a fixed-hand trace replays while looking for its wins and losses.
pub const TRACE_GAME_CAP: u32 = 200000;

/// Which replayed games of a fixed hand a trace keeps: the first `n_win` wins and the
/// first `n_loss` losses, over at most [`TRACE_GAME_CAP`] games.
#[derive(Clone, Copy, Debug, PartialEq, Eq, Structural)]
pub struct TraceSelection {
    pub n_win: u32,
    pub n_loss: u32,
    /// Wins kept so far.
    pub got_w: u32,
    /// Losses kept so far.
    pub got_l: u32,
    /// Games replayed so far.
    pub games: u32,
}

impl TraceSelection {
    /// A selection that has kept nothing and replayed nothing.
    pub fn new(n_win: u32, n_loss: u32) -> (t: TraceSelection)
        ensures
            t == (TraceSelection { n_win, n_loss, got_w: 0, got_l: 0, games: 0 }),
    {
        TraceSelection { n_win, n_loss, got_w: 0, got_l: 0, games: 0 }
    }

    /// Another game is wanted while some wins or losses are missing, under the cap.
    pub open spec fn spec_wants_more(self) -> bool {
        (self.got_w < self.n_win || self.got_l < self.n_loss) && self.games < TRACE_GAME_CAP
    }

    /// Whether to replay another game.
    pub fn wants_more(&self) -> (r: bool)
        ensures
            r == self.spec_wants_more(),
    {
        (self.got_w < self.n_win || self.got_l < self.n_loss) && self.games < TRACE_GAME_CAP
    }

    /// The selection after one more replayed game with outcome `win`, and the game's
    /// number among the kept wins (or losses) when it is kept (`None` when enough of its
    /// kind are kept).
    pub open spec fn after(self, win: bool) -> (TraceSelection, Option<u32>) {
        let games = (self.games + 1) as u32;
        if win && self.got_w < self.n_win {
            let w = (self.got_w + 1) as u32;
            (TraceSelection { n_win: self.n_win, n_loss: self.n_loss, got_w: w, got_l: self.got_l, games }, Some(w))
        } else if !win && self.got_l < self.n_loss {
            let l = (self.got_l + 1) as u32;
            (TraceSelection { n_win: self.n_win, n_loss: self.n_loss, got_w: self.got_w, got_l: l, games }, Some(l))
        } else {
            (TraceSelection { n_win: self.n_win, n_loss: self.n_loss, got_w: self.got_w, got_l: self.got_l, games }, None)
        }
    }

    /// Count one replayed game with outcome `win` (see [`TraceSelection::after`]).
    pub fn record(&mut self, win: bool) -> (kept: Option<u32>)
        requires
            old(self).games < TRACE_GAME_CAP,
        ensures
            (*final(self), kept) == old(self).after(win),
    {
        self.games = self.games + 1;
        if win && self.got_w < self.n_win {
            self.got_w = self.got_w + 1;
            Some(self.got_w)
        } else if !win && self.got_l < self.n_loss {
            self.got_l = self.got_l + 1;
            Some(self.got_l)
        } else {
            None
        }
    }
}

/// A trace never keeps more wins or losses than it asked for: recording any outcome
/// from a selection within its quotas leaves it within them, and a kept game's number
/// is at most its quota.
pub proof fn law_trace_within_quota(t: TraceSelection, win: bool)
    requires
        t.got_w <= t.n_win && t.got_l <= t.n_loss,
        t.games < TRACE_GAME_CAP,
    ensures
        t.after(win).0.got_w <= t.n_win && t.after(win).0.got_l <= t.n_loss,
        t.after(win).1 matches Some(k) ==> 1 <= k && k <= (if win { t.n_win } else { t.n_loss }),
{
}

/// v1 "protection layers": disruption the Doomsday player holds to protect the combo
/// turn, counted by name in hand at resolution.
pub open spec fn default_protection_names() -> Seq<Seq<char>> {
    seq!["Force of Will"@, "Daze"@, "Force of Negation"@, "Thoughtseize"@]
}

/// The default protection card names.
pub fn default_protection() -> (p: Vec<&'static str>)
    ensures
        p@.map_values(|s: &str| s@) == default_protection_names(),
{
    let p = vec!["Force of Will", "Daze", "Force of Negation", "Thoughtseize"];
    assert(p@.map_values(|s: &str| s@) =~= default_protection_names());
    p
}

/// The two players of a goldfish game.
#[derive(Clone, Copy, Debug, PartialEq, Eq, Structural)]
pub enum PlayerId {
    Us,
    Opp,
}

/// What the goldfish objective sees of a game event.
#[derive(Clone, Debug)]
pub enum GoldfishEvent {
    /// A spell resolved; `card_key` is the catalog key of the resolved object, if the
    /// object still exists.
    SpellResolved { controller: PlayerId, card_key: Option<String> },
    /// A token was created.
    TokenCreated { controller: PlayerId, token_key: String },
    /// Any other event.
    Other,
}

/// Goldfish objective: end the run the instant our Doomsday resolves. With `count_car`,
/// popping The Fantasticar (its sacrifice trigger creating the Construct tokens) also
/// ends the run as a "send"; without it the run is the Doomsday-only baseline.
#[derive(Clone, Copy, Debug)]
pub struct GoldfishObjective {
    pub count_car: bool,
}

impl Default for GoldfishObjective {
    fn default() -> (o: Self)
        ensures
            !o.count_car,
    {
        GoldfishObjective { count_car: false }
    }
}

impl GoldfishObjective {
    /// The event ends the run: our Doomsday resolved, or (counting the car) our
    /// Fantasticar created its Construct.
    pub open spec fn ends_run(self, event: GoldfishEvent) -> bool {
        match event {
            GoldfishEvent::SpellResolved { controller, card_key } => controller == PlayerId::Us
                && (card_key matches Some(k) && k@ == "Doomsday"@),
            GoldfishEvent::TokenCreated { controller, token_key } => self.count_car && controller
                == PlayerId::Us && token_key@ == "Fantasticar Construct"@,
            GoldfishEvent::Other => false,
        }
    }

    /// Observe an event; true ends the run. The objective keeps no state.
    pub fn observe(&mut self, event: &GoldfishEvent) -> (done: bool)
        ensures
            done == old(self).ends_run(*event),
            *final(self) == *old(self),
    {
        match event {
            GoldfishEvent::SpellResolved { controller, card_key } => {
                *controller == PlayerId::Us && match card_key {
                    Some(k) => same_name(k.as_str(), "Doomsday"),
                    None => false,
                }
            },
            GoldfishEvent::TokenCreated { controller, token_key } => {
                self.count_car && *controller == PlayerId::Us && same_name(
                    token_key.as_str(),
                    "Fantasticar Construct",
                )
            },
            GoldfishEvent::Other => false,
        }
    }
}

/// One sample game for display: the kept opening hand and its outcome.
#[derive(Clone, Debug)]
pub struct SampleGame {
    /// Mulligans taken; the kept hand has 7 − this many cards.
    pub mulls: u8,
    /// The kept opening hand (catalog keys), post-mulligan.
    pub hand: Vec<String>,
    /// Hands thrown back before the keep (each the 7 seen), in order.
    pub mulligans: Vec<Vec<String>>,
    /// Turn Doomsday resolved, or None if it never did.
    pub cast_turn: Option<u32>,
}

/// How many sample games a run keeps.
pub const SAMPLE_LIMIT: usize = 8;

/// Keep a sample of the game (the first [`SAMPLE_LIMIT`] games of a run are kept): its
/// kept hand, the hands thrown back, and the cast turn if the run ended by casting.
pub fn record_sample(
    samples: &mut Vec<SampleGame>,
    hand: Vec<String>,
    mulligans: Vec<Vec<String>>,
    terminal: bool,
    current_turn: u8,
)
    ensures
        old(samples)@.len() < SAMPLE_LIMIT ==> final(samples)@ == old(samples)@.push(
            SampleGame {
                mulls: mulligans@.len() as u8,
                hand,
                mulligans,
                cast_turn: if terminal { Some(current_turn as u32) } else { None },
            },
        ),
        old(samples)@.len() >= SAMPLE_LIMIT ==> final(samples)@ == old(samples)@,
{
    if samples.len() < SAMPLE_LIMIT {
        let mulls = mulligans.len() as u8;
        let cast_turn = if terminal {
            Some(current_turn as u32)
        } else {
            None
        };
        samples.push(SampleGame { mulls, hand, mulligans, cast_turn });
    }
}

/// Number of named-air cards in a hand.
pub fn air_count(hand: &[String]) -> (n: u64)
    ensures
        n == count_where(names(hand@), |c: Seq<char>| is_air_name(c)),
{
    let ghost hn = names(hand@);
    let mut n: u64 = 0;
    let len = hand.len();
    for i in 0..len
        invariant
            len == hand@.len(),
            hn == names(hand@),
            n == count_where(hn.take(i as int), |c: Seq<char>| is_air_name(c)),
            n <= i,
    {
        proof {
            lemma_count_step(hn, |c: Seq<char>| is_air_name(c), i as int);
        }
        if is_air(hand[i].as_str()) {
            n = n + 1;
        }
    }
    proof {
        assert(hn.take(len as int) =~= hn);
    }
    n
}

/// Whether `name` is one of the protection names.
fn is_protection(name: &str, protection: &[&str]) -> (r: bool)
    ensures
        r == protection@.map_values(|s: &str| s@).contains(name@),
{
    let ghost pn = protection@.map_values(|s: &str| s@);
    let m = protection.len();
    for j in 0..m
        invariant
            m == protection@.len(),
            pn == protection@.map_values(|s: &str| s@),
            forall|k: int| 0 <= k < j ==> pn[k] != name@,
    {
        if same_name(protection[j], name) {
            assert(pn[j as int] == name@);
            return true;
        }
    }
    false
}

/// Number of protection cards (by name) in a hand.
pub fn protection_count(hand: &[String], protection: &[&str]) -> (n: usize)
    ensures
        n == count_where(
            names(hand@),
            |c: Seq<char>| protection@.map_values(|s: &str| s@).contains(c),
        ),
        n <= hand@.len(),
{
    let ghost hn = names(hand@);
    let ghost pn = protection@.map_values(|s: &str| s@);
    let mut n: usize = 0;
    let len = hand.len();
    for i in 0..len
        invariant
            len == hand@.len(),
            hn == names(hand@),
            pn == protection@.map_values(|s: &str| s@),
            n == count_where(hn.take(i as int), |c: Seq<char>| pn.contains(c)),
            n <= i,
    {
        proof {
            lemma_count_step(hn, |c: Seq<char>| pn.contains(c), i as int);
        }
        if is_protection(hand[i].as_str(), protection) {
            n = n + 1;
        }
    }
    proof {
        assert(hn.take(len as int) =~= hn);
    }
    n
}

/// Deterministic two-wincon "send" report: for random opening hands, whether the solver
/// can guarantee a send by the cutoff — via Doomsday, via The Fantasticar, or either —
/// and how many of the sends also hold protection.
#[derive(Clone, Copy, Debug, PartialEq, Eq, Structural)]
pub struct SendReport {
    pub games: u32,
    pub cutoff: u8,
    /// Hands that can guarantee Doomsday by `cutoff`.
    pub dd_by: u32,
    /// Hands that can guarantee a car pop by `cutoff`.
    pub car_by: u32,
    /// Hands that can guarantee either (the union).
    pub send_by: u32,
    /// Of the `send_by` hands, those also holding ≥1 protection card.
    pub send_protected: u32,
    /// Of the `send_by` hands, those holding 0 protection.
    pub send_naked: u32,
}

impl SendReport {
    /// The report's counts are consistent: the sends split into protected and naked, and
    /// the union is at least each wincon and at most their sum.
    pub open spec fn consistent(self) -> bool {
        &&& self.send_protected + self.send_naked == self.send_by
        &&& self.dd_by <= self.send_by
        &&& self.car_by <= self.send_by
        &&& self.send_by <= self.dd_by + self.car_by
    }

    /// An empty report for `games` hands at `cutoff`.
    pub fn new(games: u32, cutoff: u8) -> (r: SendReport)
        ensures
            r == (SendReport {
                games,
                cutoff,
                dd_by: 0,
                car_by: 0,
                send_by: 0,
                send_protected: 0,
                send_naked: 0,
            }),
            r.consistent(),
    {
        SendReport {
            games,
            cutoff,
            dd_by: 0,
            car_by: 0,
            send_by: 0,
            send_protected: 0,
            send_naked: 0,
        }
    }

    /// Record one hand: whether it can guarantee Doomsday (`dd`) and a car pop (`car`) by
    /// the cutoff, and how many protection cards it holds. A consistent report stays
    /// consistent.
    pub fn record_hand(&mut self, dd: bool, car: bool, protection: usize)
        requires
            dd ==> old(self).dd_by < u32::MAX,
            car ==> old(self).car_by < u32::MAX,
            dd || car ==> old(self).send_by < u32::MAX,
            (dd || car) && protection >= 1 ==> old(self).send_protected < u32::MAX,
            (dd || car) && protection == 0 ==> old(self).send_naked < u32::MAX,
        ensures
            old(self).consistent() ==> final(self).consistent(),
            final(self).games == old(self).games,
            final(self).cutoff == old(self).cutoff,
            final(self).dd_by == old(self).dd_by + (if dd { 1int } else { 0int }),
            final(self).car_by == old(self).car_by + (if car { 1int } else { 0int }),
            final(self).send_by == old(self).send_by + (if dd || car { 1int } else { 0int }),
            final(self).send_protected == old(self).send_protected + (if (dd || car) && protection
                >= 1 { 1int } else { 0int }),
            final(self).send_naked == old(self).send_naked + (if (dd || car) && protection == 0 {
                1int
            } else {
                0int
            }),
    {
        let send = dd || car;
        if dd {
            self.dd_by = self.dd_by + 1;
        }
        if car {
            self.car_by = self.car_by + 1;
        }
        if send {
            self.send_by = self.send_by + 1;
            if protection >= 1 {
                self.send_protected = self.send_protected + 1;
            } else {
                self.send_naked = self.send_naked + 1;
            }
        }
    }
}

/// Length of a histogram bar: `c` scaled to `width` against the largest count `max`
/// (zero when `max` is zero).
pub open spec fn bar_len(c: u32, max: u32, width: usize) -> int {
    if max == 0 {
        0
    } else {
        (c * width) as int / max as int
    }
}

/// A histogram bar of `█` characters (see [`bar_len`]).
pub fn bar(c: u32, max: u32, width: usize) -> (b: String)
    requires
        c * width <= usize::MAX,
    ensures
        b@ == Seq::new(bar_len(c, max, width) as nat, |_i: int| '█'),
{
    let n: usize = if max == 0 {
        0
    } else {
        (c as usize * width) / max as usize
    };
    let mut b = String::new();
    proof {
        reveal_strlit("█");
    }
    for k in 0..n
        invariant
            b@ == Seq::new(k as nat, |_i: int| '█'),
            "█"@ == seq!['█'],
    {
        b.append("█");
        assert(b@ =~= Seq::new((k + 1) as nat, |_i: int| '█'));
    }
    b
}

/// Counting the car as a send only adds sends: whatever ends a Doomsday-only run also
/// ends the two-wincon run.
pub proof fn law_car_only_adds_sends(event: GoldfishEvent)
    ensures
        (GoldfishObjective { count_car: false }).ends_run(event) ==> (GoldfishObjective {
            count_car: true,
        }).ends_run(event),
{
}

/// A created token ends the run exactly when the car is counted, the token is ours and it
/// is the Fantasticar's Construct; any other token never does.
pub proof fn law_only_the_construct_token_sends(
    objective: GoldfishObjective,
    controller: PlayerId,
    token_key: String,
)
    ensures
        objective.ends_run(GoldfishEvent::TokenCreated { controller, token_key }) <==> (
        objective.count_car && controller == PlayerId::Us && token_key@
            == "Fantasticar Construct"@),
        token_key@ != "Fantasticar Construct"@ ==> !objective.ends_run(
            GoldfishEvent::TokenCreated { controller, token_key },
        ),
{
}

/// The Doomsday-only objective ends a run exactly when our Doomsday resolves.
pub proof fn law_baseline_ends_on_doomsday_only(event: GoldfishEvent)
    ensures
        (GoldfishObjective { count_car: false }).ends_run(event) <==> (event matches GoldfishEvent::SpellResolved {
            controller,
            card_key,
        } && controller == PlayerId::Us && (card_key matches Some(k) && k@ == "Doomsday"@)),
{
}

/// A histogram with one more count at `k`.
pub open spec fn bumped<K>(m: Map<K, u32>, k: K) -> Map<K, u32> {
    m.insert(k, (if m.contains_key(k) { m[k] + 1 } else { 1 }) as u32)
}

/// There is room for one more count at `k`.
pub open spec fn room_at<K>(m: Map<K, u32>, k: K) -> bool {
    m.contains_key(k) ==> m[k] < u32::MAX
}

/// The histogram keys compare as integers do.
proof fn lemma_integer_keys_ordered()
    ensures
        vstd::laws_cmp::obeys_cmp::<u8>(),
        vstd::laws_cmp::obeys_cmp::<u32>(),
{
    broadcast use vstd::laws_cmp::group_laws_cmp;

}

/// Count one more at `k`.
fn bump<K: Ord + Copy>(m: &mut BTreeMap<K, u32>, k: K)
    requires
        vstd::laws_cmp::obeys_cmp::<K>(),
        room_at(old(m)@, k),
    ensures
        final(m)@ == bumped(old(m)@, k),
{
    broadcast use vstd::std_specs::btree::axiom_maps_deref_key_to_value;
    broadcast use vstd::std_specs::btree::axiom_contains_deref_key;

    let c: u32 = match m.get(&k) {
        Some(v) => *v + 1,
        None => 1,
    };
    m.insert(k, c);
}

/// What the cutoff-state hand lacked in a game that missed the cutoff.
#[derive(Clone, Copy, Debug, PartialEq, Eq, Structural)]
pub enum MissingElement {
    /// Could not make BBB this turn.
    Mana,
    /// No Doomsday in hand.
    Payoff,
    Both,
    /// Had both but didn't cast — a sequencing/timing gap.
    Neither,
}

/// What the tally reads of one finished goldfish game.
#[derive(Clone, Debug)]
pub struct GameOutcome {
    /// The kept opening hand (catalog keys).
    pub opening_hand: Vec<String>,
    /// The hands thrown back before the keep, in order.
    pub mulliganed_hands: Vec<Vec<String>>,
    /// The run ended by the objective (Doomsday resolved, or the car popped).
    pub terminal: bool,
    /// The turn the game stopped on.
    pub current_turn: u8,
    /// Our hand when the game stopped (catalog keys).
    pub final_hand: Vec<String>,
    /// Mulligans taken and whether the opening hand had a deterministic line, from the
    /// pilot's summary line (the prediction is tallied by the caller).
    pub summary: Option<(u8, bool)>,
    /// What the hand lacked when the game missed the cutoff.
    pub missing: MissingElement,
}

/// Aggregated integer results of a goldfish run (the predicted-probability sums are
/// floating point and kept by the caller).
#[derive(Clone, Debug)]
pub struct GoldfishStats {
    pub games: u32,
    /// Games where the run never ended within the turn cap.
    pub fails: u32,
    /// turn → number of games that ended on that turn.
    pub cast_turn: BTreeMap<u8, u32>,
    /// (#protection cards in hand at the end) → number of games.
    pub protection: BTreeMap<u32, u32>,
    /// The cutoff turn the strategy played to (0 = N/A).
    pub cutoff: u8,
    /// mulligans taken → number of games kept at that level.
    pub mull_count: BTreeMap<u8, u32>,
    /// mulligans taken → number of those games that ended by the cutoff.
    pub mull_cast: BTreeMap<u8, u32>,
    /// Air content of the first opening 7, split by its fate: Σ air cards and #hands for
    /// sevens kept at 7 and sevens mulliganed.
    pub kept7_air_sum: u64,
    pub kept7_count: u64,
    pub mull7_air_sum: u64,
    pub mull7_count: u64,
    /// Games ended by the cutoff whose opening hand had a deterministic line.
    pub deterministic_cast: u32,
    /// Games ended by the cutoff by drawing / cantripping into the line.
    pub stochastic_cast: u32,
    /// Games that missed the cutoff, by what the hand lacked.
    pub miss_mana: u32,
    pub miss_payoff: u32,
    pub miss_both: u32,
    pub miss_neither: u32,
    /// The first few games of the run.
    pub samples: Vec<SampleGame>,
}

/// Number of named-air cards in a list of names.
pub open spec fn air_in(h: Seq<String>) -> nat {
    count_where(names(h), |c: Seq<char>| is_air_name(c))
}

impl GameOutcome {
    /// The game ended by the cutoff.
    pub open spec fn cast_by_cutoff(self, cutoff: u8) -> bool {
        self.terminal && cutoff > 0 && self.current_turn <= cutoff
    }
}

impl GoldfishStats {
    /// Empty statistics for a run of `games` games to `cutoff`.
    pub fn new(games: u32, cutoff: u8) -> (s: GoldfishStats)
        ensures
            s.games == games,
            s.cutoff == cutoff,
            s.fails == 0,
            s.cast_turn@ == Map::<u8, u32>::empty(),
            s.protection@ == Map::<u32, u32>::empty(),
            s.mull_count@ == Map::<u8, u32>::empty(),
            s.mull_cast@ == Map::<u8, u32>::empty(),
            s.kept7_air_sum == 0 && s.kept7_count == 0 && s.mull7_air_sum == 0 && s.mull7_count == 0,
            s.deterministic_cast == 0 && s.stochastic_cast == 0,
            s.miss_mana == 0 && s.miss_payoff == 0 && s.miss_both == 0 && s.miss_neither == 0,
            s.samples@.len() == 0,
    {
        GoldfishStats {
            games,
            fails: 0,
            cast_turn: BTreeMap::new(),
            protection: BTreeMap::new(),
            cutoff,
            mull_count: BTreeMap::new(),
            mull_cast: BTreeMap::new(),
            kept7_air_sum: 0,
            kept7_count: 0,
            mull7_air_sum: 0,
            mull7_count: 0,
            deterministic_cast: 0,
            stochastic_cast: 0,
            miss_mana: 0,
            miss_payoff: 0,
            miss_both: 0,
            miss_neither: 0,
            samples: Vec::new(),
        }
    }

    /// Games in which the run ended within the turn cap.
    pub fn successes(&self) -> (n: u32)
        requires
            self.fails <= self.games,
        ensures
            n == self.games - self.fails,
    {
        self.games - self.fails
    }

    /// No counter that recording `g` (with `prot` protection cards in its final hand)
    /// increments is at its maximum.
    pub open spec fn room_for(self, g: GameOutcome, prot: u32) -> bool {
        let cast = g.cast_by_cutoff(self.cutoff);
        &&& (g.mulliganed_hands@.len() > 0 ==> self.mull7_count < u64::MAX && self.mull7_air_sum
            + g.mulliganed_hands@[0]@.len() <= u64::MAX)
        &&& (g.mulliganed_hands@.len() == 0 && g.opening_hand@.len() > 0 ==> self.kept7_count
            < u64::MAX && self.kept7_air_sum + g.opening_hand@.len() <= u64::MAX)
        &&& (g.terminal ==> room_at(self.cast_turn@, g.current_turn) && room_at(
            self.protection@,
            prot,
        ))
        &&& (!g.terminal ==> self.fails < u32::MAX)
        &&& (g.summary matches Some((m, det)) ==> {
            &&& room_at(self.mull_count@, m)
            &&& cast ==> room_at(self.mull_cast@, m)
            &&& cast && det ==> self.deterministic_cast < u32::MAX
            &&& cast && !det ==> self.stochastic_cast < u32::MAX
            &&& !cast ==> match g.missing {
                MissingElement::Mana => self.miss_mana < u32::MAX,
                MissingElement::Payoff => self.miss_payoff < u32::MAX,
                MissingElement::Both => self.miss_both < u32::MAX,
                MissingElement::Neither => self.miss_neither < u32::MAX,
            }
        })
    }

    /// Tally one finished game: a sample (the first few games), the air in the first
    /// opening 7 by its fate, the end turn and protection held (or a failure), and from
    /// the pilot's summary the mulligan level, whether it ended by the cutoff, and how —
    /// from a deterministic opening line or by drawing into it — or else what the hand
    /// lacked.
    pub fn record_game(&mut self, g: GameOutcome, protection: &[&str])
        requires
            old(self).room_for(
                g,
                count_where(
                    names(g.final_hand@),
                    |c: Seq<char>| protection@.map_values(|s: &str| s@).contains(c),
                ) as u32,
            ),
            g.final_hand@.len() <= u32::MAX,
        ensures
            ({
                let prot = count_where(
                    names(g.final_hand@),
                    |c: Seq<char>| protection@.map_values(|s: &str| s@).contains(c),
                ) as u32;
                let cast = g.cast_by_cutoff(old(self).cutoff);
                &&& final(self).games == old(self).games
                &&& final(self).cutoff == old(self).cutoff
                &&& (old(self).samples@.len() < SAMPLE_LIMIT ==> final(self).samples@ == old(
                    self,
                ).samples@.push(
                    SampleGame {
                        mulls: g.mulliganed_hands@.len() as u8,
                        hand: g.opening_hand,
                        mulligans: g.mulliganed_hands,
                        cast_turn: if g.terminal { Some(g.current_turn as u32) } else { None },
                    },
                ))
                &&& (old(self).samples@.len() >= SAMPLE_LIMIT ==> final(self).samples@ == old(
                    self,
                ).samples@)
                &&& final(self).mull7_air_sum == old(self).mull7_air_sum + (if g.mulliganed_hands@.len()
                    > 0 { air_in(g.mulliganed_hands@[0]@) } else { 0 })
                &&& final(self).mull7_count == old(self).mull7_count + (if g.mulliganed_hands@.len()
                    > 0 { 1int } else { 0 })
                &&& final(self).kept7_air_sum == old(self).kept7_air_sum + (if g.mulliganed_hands@.len()
                    == 0 && g.opening_hand@.len() > 0 { air_in(g.opening_hand@) } else { 0 })
                &&& final(self).kept7_count == old(self).kept7_count + (if g.mulliganed_hands@.len()
                    == 0 && g.opening_hand@.len() > 0 { 1int } else { 0 })
                &&& final(self).cast_turn@ == (if g.terminal {
                    bumped(old(self).cast_turn@, g.current_turn)
                } else {
                    old(self).cast_turn@
                })
                &&& final(self).protection@ == (if g.terminal {
                    bumped(old(self).protection@, prot)
                } else {
                    old(self).protection@
                })
                &&& final(self).fails == old(self).fails + (if g.terminal { 0int } else { 1 })
                &&& final(self).mull_count@ == (match g.summary {
                    Some((m, _)) => bumped(old(self).mull_count@, m),
                    None => old(self).mull_count@,
                })
                &&& final(self).mull_cast@ == (match g.summary {
                    Some((m, _)) => if cast {
                        bumped(old(self).mull_cast@, m)
                    } else {
                        old(self).mull_cast@
                    },
                    None => old(self).mull_cast@,
                })
                &&& final(self).deterministic_cast == old(self).deterministic_cast + (if (g.summary matches Some((_, det)) && cast && det) { 1int } else { 0 })
                &&& final(self).stochastic_cast == old(self).stochastic_cast + (if (g.summary matches Some((_, det)) && cast && !det) { 1int } else { 0 })
                &&& final(self).miss_mana == old(self).miss_mana + (if g.summary is Some && !cast && g.missing == MissingElement::Mana { 1int } else { 0 })
                &&& final(self).miss_payoff == old(self).miss_payoff + (if g.summary is Some && !cast && g.missing == MissingElement::Payoff { 1int } else { 0 })
                &&& final(self).miss_both == old(self).miss_both + (if g.summary is Some && !cast && g.missing == MissingElement::Both { 1int } else { 0 })
                &&& final(self).miss_neither == old(self).miss_neither + (if g.summary is Some && !cast && g.missing == MissingElement::Neither { 1int } else { 0 })
            }),
    {
        proof {
            lemma_integer_keys_ordered();
        }
        let cast_by_cutoff = g.terminal && self.cutoff > 0 && g.current_turn <= self.cutoff;
        // Air content of the FIRST opening 7, by its fate: the first thrown-back hand if a
        // mulligan was taken, else the kept hand.
        if g.mulliganed_hands.len() > 0 {
            let air = air_count(g.mulliganed_hands[0].as_slice());
            proof {
                lemma_count_le_len(names(g.mulliganed_hands@[0]@), |c: Seq<char>| is_air_name(c));
            }
            self.mull7_air_sum = self.mull7_air_sum + air;
            self.mull7_count = self.mull7_count + 1;
        } else if g.opening_hand.len() > 0 {
            let air = air_count(g.opening_hand.as_slice());
            proof {
                lemma_count_le_len(names(g.opening_hand@), |c: Seq<char>| is_air_name(c));
            }
            self.kept7_air_sum = self.kept7_air_sum + air;
            self.kept7_count = self.kept7_count + 1;
        }
        if g.terminal {
            bump(&mut self.cast_turn, g.current_turn);
            let prot = protection_count(g.final_hand.as_slice(), protection) as u32;
            bump(&mut self.protection, prot);
        } else {
            self.fails = self.fails + 1;
        }
        match g.summary {
            Some((mull, det)) => {
                bump(&mut self.mull_count, mull);
                if cast_by_cutoff {
                    bump(&mut self.mull_cast, mull);
                    if det {
                        self.deterministic_cast = self.deterministic_cast + 1;
                    } else {
                        self.stochastic_cast = self.stochastic_cast + 1;
                    }
                } else {
                    match g.missing {
                        MissingElement::Mana => self.miss_mana = self.miss_mana + 1,
                        MissingElement::Payoff => self.miss_payoff = self.miss_payoff + 1,
                        MissingElement::Both => self.miss_both = self.miss_both + 1,
                        MissingElement::Neither => self.miss_neither = self.miss_neither + 1,
                    }
                }
            },
            None => {},
        }
        record_sample(&mut self.samples, g.opening_hand, g.mulliganed_hands, g.terminal, g.current_turn);
    }
}

} // verus!
