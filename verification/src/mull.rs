//! Goldfish mulligan modes.
//!
//! Opening-hand policies for the cast-Doomsday-ASAP pilot:
//!
//! - [`MullMode::Keep7`] — never mulligan.
//! - [`MullMode::Realistic`] — keep a hand with real mana and an actual plan to cast
//!   Doomsday; mulligan no-mana / flooded / do-nothing hands. Every keep/mull names an
//!   inspectable reason (see [`HandSignals`]).
//! - [`MullMode::Aggressive`] — keep only a guaranteed-or-nearly-guaranteed fast
//!   Doomsday: a deterministic line by the cutoff, or Doomsday + BB + a castable look.
//! - [`MullMode::LearnedSpeed`] / [`MullMode::LearnedInteractive`] — the learned
//!   policies; their verdict is computed from the learned model and handed in.
//!
//! Every mode keeps the 4-card hand. Flooded means >= 4 lands left once named air and
//! then excess lands have been bottomed.
//!
//! A "look" is a card-selection effect you can actually pay for. Sources are counted
//! the way the game sees them: only unconditional colored lands are a mana base.
//!
//! The game facts about each card (its role for the Doomsday solver, whether it is a
//! land, its mana abilities and mana cost) and the solver's two verdicts on the hand
//! (a deterministic Doomsday line by the cutoff, a fast Tamiyo flip) are inputs: they
//! form an [`OpeningHand`].

use vstd::prelude::*;
use vstd::string::StrSliceExecFns;

use crate::count::{
    count_where, lemma_count_disjoint, lemma_count_ext, lemma_count_insert, lemma_count_le_len,
    lemma_count_mono, lemma_count_multiset, lemma_count_or, lemma_count_step,
};
use crate::names::same_name;

verus! {

/// Opening-hand discipline for the goldfish pilot.
#[derive(Clone, Copy, Debug, PartialEq, Eq, Structural)]
pub enum MullMode {
    /// Never mulligan — keep the opening 7.
    Keep7,
    /// Player-heuristic "keep a real plan" rule (the default).
    Realistic,
    /// Keep only a deterministic Doomsday line by the cutoff (the fanatical race bar).
    Aggressive,
    /// The learned policy, raw-speed objective.
    LearnedSpeed,
    /// The learned policy scoring speed together with the interaction kept in hand.
    LearnedInteractive,
}

impl Default for MullMode {
    fn default() -> (m: Self)
        ensures
            m == MullMode::Realistic,
    {
        MullMode::Realistic
    }
}

/// The mode a web/CLI token names; unknown tokens name the default mode.
pub open spec fn mode_for_token(s: Seq<char>) -> MullMode {
    if s == "keep7"@ {
        MullMode::Keep7
    } else if s == "aggressive"@ {
        MullMode::Aggressive
    } else if s == "learned-speed"@ || s == "learned_speed"@ {
        MullMode::LearnedSpeed
    } else if s == "learned-interactive"@ || s == "learned_interactive"@ {
        MullMode::LearnedInteractive
    } else {
        MullMode::Realistic
    }
}

impl MullMode {
    /// Parse a web/CLI token; unknown → default.
    pub fn from_str_or_default(s: &str) -> (m: MullMode)
        ensures
            m == mode_for_token(s@),
    {
        if same_name(s, "keep7") {
            MullMode::Keep7
        } else if same_name(s, "aggressive") {
            MullMode::Aggressive
        } else if same_name(s, "learned-speed") || same_name(s, "learned_speed") {
            MullMode::LearnedSpeed
        } else if same_name(s, "learned-interactive") || same_name(s, "learned_interactive") {
            MullMode::LearnedInteractive
        } else {
            MullMode::Realistic
        }
    }
}

/// Cards that contribute to no realistic plan in a Doomsday hand — read as if they
/// weren't in the hand: the alt win-con and tutor-target (Thassa's Oracle), reanimation
/// with no target (Unearth), the hand-discard mana rock (LED), a marginal cantrip (Edge
/// of Autumn), the secondary win-con (Jace), and the utility lands (Wasteland, Cavern).
pub open spec fn is_air_name(name: Seq<char>) -> bool {
    ||| name == "Thassa's Oracle"@
    ||| name == "Unearth"@
    ||| name == "Lion's Eye Diamond"@
    ||| name == "Edge of Autumn"@
    ||| name == "Jace, Wielder of Mysteries"@
    ||| name == "Wasteland"@
    ||| name == "Cavern of Souls"@
}

/// Whether `name` is one of the named-air cards.
pub fn is_air(name: &str) -> (r: bool)
    ensures
        r == is_air_name(name@),
{
    same_name(name, "Thassa's Oracle") || same_name(name, "Unearth") || same_name(
        name,
        "Lion's Eye Diamond",
    ) || same_name(name, "Edge of Autumn") || same_name(name, "Jace, Wielder of Mysteries")
        || same_name(name, "Wasteland") || same_name(name, "Cavern of Souls")
}

/// A colour of mana.
#[derive(Clone, Copy, Debug, PartialEq, Eq, Structural)]
pub enum Color {
    White,
    Blue,
    Black,
    Red,
    Green,
    Colorless,
}

/// A mana ability of a card, as far as the castability rules read it.
#[derive(Clone, Debug)]
pub struct ManaAbility {
    /// Activated from the battlefield (not from hand or graveyard).
    pub from_battlefield: bool,
    /// Default activation timing.
    pub default_timing: bool,
    /// Usable only under a condition (Cavern of Souls: creature spells only).
    pub conditional: bool,
    /// The colours it can produce.
    pub produces: Vec<Color>,
}

/// The game facts of a card that the mulligan rules read.
#[derive(Clone, Debug)]
pub struct CardFacts {
    pub is_land: bool,
    /// A cast-to-dig cantrip (Ponder, Brainstorm, Consider, Flow State).
    pub digs_on_resolve: bool,
    /// A free cycling draw (Street Wraith).
    pub has_cycling_draw: bool,
    /// Mana cost in the usual text form, e.g. `{1}{U}` or `1U`.
    pub mana_cost: String,
    pub mana_abilities: Vec<ManaAbility>,
}

/// The role the Doomsday solver gives a card in hand.
#[derive(Clone, Copy, Debug, PartialEq, Eq, Structural)]
pub enum CardRole {
    /// Doomsday itself.
    Payoff,
    /// A tutor that finds Doomsday.
    PayoffTutor,
    /// Dark Ritual.
    Ritual,
    /// Lotus Petal.
    Petal,
    /// A fetch land.
    Fetch,
    /// A black land that enters untapped.
    BlackLandUntapped,
    /// A black land that enters tapped (Undercity Sewers, which surveils).
    BlackLandTapped,
    /// Any role the mulligan rules do not single out.
    Other,
}

/// A card in the opening hand.
#[derive(Clone, Debug)]
pub struct HandCard {
    /// Catalog key (card name).
    pub name: String,
    pub role: CardRole,
    /// `None` for a card the catalog does not know; such a card counts for nothing.
    pub facts: Option<CardFacts>,
}

/// An opening hand together with the solver's verdicts on it.
#[derive(Clone, Debug)]
pub struct OpeningHand {
    pub cards: Vec<HandCard>,
    /// The solver finds a guaranteed Doomsday line by the cutoff.
    pub det_line: bool,
    /// The hand can deterministically flip Tamiyo by turn 2.
    pub tami_fast_flip: bool,
}

/// Explicit, inspectable signals over the opening hand — plain card counts plus the
/// solver's facts. Named-air cards are excluded from every count.
#[derive(Clone, Copy, Debug, PartialEq, Eq)]
pub struct HandSignals {
    /// Lands (a fetch counts) that tap blue unconditionally.
    pub blue_lands: u32,
    /// Lands (a fetch counts) that tap black unconditionally.
    pub black_lands: u32,
    /// Distinct lands tapping U or B (a dual counts once) — the real mana base.
    pub colored_lands: u32,
    /// All lands incl. colorless — for the flood check.
    pub lands: u32,
    /// One-shot any-colour mana (Lotus Petal).
    pub petals: u32,
    /// Dark Ritual.
    pub rituals: u32,
    /// Cast-to-dig cantrips that the lands can pay for.
    pub deep_looks: u32,
    /// Shallow selection: a free cycler, a surveil land, or a fetch while holding >= 2 lands.
    pub marginal_looks: u32,
    /// Named-air cards in hand plus accelerants beyond the first.
    pub named_air: u32,
    /// Doomsday (or a tutor that finds it) in hand.
    pub has_dd: bool,
    /// Tamiyo, Inquisitive Student in hand.
    pub has_tamiyo: bool,
    /// A fetch in hand.
    pub fetch: bool,
    /// Real non-mana, non-dig, non-payoff cards — interaction and threats.
    pub supporters: u32,
    /// The solver finds a guaranteed Doomsday line by the cutoff.
    pub det_line: bool,
    /// The hand can deterministically flip Tamiyo by turn 2.
    pub tami_fast_flip: bool,
}

impl Default for HandSignals {
    fn default() -> (s: Self)
        ensures
            s == HandSignals::zero(),
    {
        HandSignals {
            blue_lands: 0,
            black_lands: 0,
            colored_lands: 0,
            lands: 0,
            petals: 0,
            rituals: 0,
            deep_looks: 0,
            marginal_looks: 0,
            named_air: 0,
            has_dd: false,
            has_tamiyo: false,
            fetch: false,
            supporters: 0,
            det_line: false,
            tami_fast_flip: false,
        }
    }
}

impl HandSignals {
    /// All counts zero, all flags false.
    pub open spec fn zero() -> HandSignals {
        HandSignals {
            blue_lands: 0,
            black_lands: 0,
            colored_lands: 0,
            lands: 0,
            petals: 0,
            rituals: 0,
            deep_looks: 0,
            marginal_looks: 0,
            named_air: 0,
            has_dd: false,
            has_tamiyo: false,
            fetch: false,
            supporters: 0,
            det_line: false,
            tami_fast_flip: false,
        }
    }

    pub open spec fn spec_mana_base(self) -> bool {
        self.colored_lands >= 1
    }

    pub open spec fn spec_black_src(self) -> bool {
        self.black_lands >= 1 || self.petals >= 1
    }

    pub open spec fn spec_bb(self) -> bool {
        self.black_lands + self.petals >= 2
    }

    pub open spec fn spec_looks(self) -> int {
        self.deep_looks + (if self.marginal_looks >= 1 { 1int } else { 0int })
    }

    /// Lands left after the London bottom: named air goes first, then excess lands.
    pub open spec fn spec_flooded(self, mulligans_taken: u32) -> bool {
        self.lands.saturating_sub(mulligans_taken.saturating_sub(self.named_air)) >= 4
    }

    /// The sums the Realistic rule forms stay within `u32`.
    pub open spec fn sums_fit(self) -> bool {
        &&& self.black_lands + self.petals <= u32::MAX
        &&& self.spec_looks() <= u32::MAX
        &&& self.petals + self.rituals <= u32::MAX
    }

    /// A real mana base: at least one colored land (one-shots don't count).
    pub fn mana_base(&self) -> (r: bool)
        ensures
            r == self.spec_mana_base(),
    {
        self.colored_lands >= 1
    }

    /// A real black source toward BBB (land or Petal — a bare Ritual needs a seed).
    pub fn black_src(&self) -> (r: bool)
        ensures
            r == self.spec_black_src(),
    {
        self.black_lands >= 1 || self.petals >= 1
    }

    /// BB — two black units (lands and/or Petals).
    pub fn bb(&self) -> (r: bool)
        requires
            self.black_lands + self.petals <= u32::MAX,
        ensures
            r == self.spec_bb(),
    {
        self.black_lands + self.petals >= 2
    }

    /// Effective look count: deep looks plus at most one marginal look.
    pub fn looks(&self) -> (r: u32)
        requires
            self.spec_looks() <= u32::MAX,
        ensures
            r == self.spec_looks(),
    {
        self.deep_looks + if self.marginal_looks < 1 {
            self.marginal_looks
        } else {
            1
        }
    }

    /// Flooded after the London bottom: you bottom named air first, then excess lands, so
    /// you're only truly clogged if >= 4 lands remain once you've shed what you can.
    pub fn flooded(&self, mulligans_taken: u32) -> (r: bool)
        ensures
            r == self.spec_flooded(mulligans_taken),
    {
        let land_bottoms = mulligans_taken.saturating_sub(self.named_air);
        self.lands.saturating_sub(land_bottoms) >= 4
    }
}

/// The ability taps for `color` from the battlefield unconditionally, at default timing.
pub open spec fn ability_taps_for(a: ManaAbility, color: Color) -> bool {
    &&& a.from_battlefield
    &&& a.default_timing
    &&& !a.conditional
    &&& a.produces@.contains(color)
}

/// Some mana ability of the card taps for `color` unconditionally.
pub open spec fn card_taps_for(def: CardFacts, color: Color) -> bool {
    exists|i: int| 0 <= i < def.mana_abilities@.len() && ability_taps_for(#[trigger] def.mana_abilities@[i], color)
}

/// Whether the ability can produce `color`.
fn produces_color(ma: &ManaAbility, color: Color) -> (r: bool)
    ensures
        r == ma.produces@.contains(color),
{
    let m = ma.produces.len();
    for k in 0..m
        invariant
            m == ma.produces@.len(),
            forall|j: int| 0 <= j < k ==> ma.produces@[j] != color,
    {
        if ma.produces[k] == color {
            return true;
        }
    }
    false
}

/// Does `def` tap for `color` from the battlefield unconditionally (default timing, no
/// condition)? Lotus Petal (any colour) and duals count; Cavern of Souls does not.
pub fn taps_for(def: &CardFacts, color: Color) -> (r: bool)
    ensures
        r == card_taps_for(*def, color),
{
    let n = def.mana_abilities.len();
    for i in 0..n
        invariant
            n == def.mana_abilities@.len(),
            forall|j: int| 0 <= j < i ==> !ability_taps_for(#[trigger] def.mana_abilities@[j], color),
    {
        let ma = &def.mana_abilities[i];
        if ma.from_battlefield && ma.default_timing && !ma.conditional && produces_color(ma, color) {
            assert(ability_taps_for(def.mana_abilities@[i as int], color));
            return true;
        }
    }
    false
}

/// An ASCII decimal digit.
pub open spec fn is_digit(c: char) -> bool {
    '0' <= c && c <= '9'
}

pub open spec fn digit_value(c: char) -> int {
    c as int - '0' as int
}

/// Reading a mana cost left to right: (blue pips, black pips, generic so far, the
/// number being read). Digits build a number; any other character ends it and adds it
/// to the generic count; `U` and `B` are coloured pips; `W`, `R`, `G`, `C` count as generic.
pub open spec fn cost_scan(cs: Seq<char>) -> (int, int, int, int)
    decreases cs.len(),
{
    if cs.len() == 0 {
        (0, 0, 0, 0)
    } else {
        let (u, b, g, n) = cost_scan(cs.drop_last());
        let ch = cs.last();
        if is_digit(ch) {
            (u, b, g, n * 10 + digit_value(ch))
        } else if ch == 'U' {
            (u + 1, b, g + n, 0)
        } else if ch == 'B' {
            (u, b + 1, g + n, 0)
        } else if ch == 'W' || ch == 'R' || ch == 'G' || ch == 'C' {
            (u, b, g + n + 1, 0)
        } else {
            (u, b, g + n, 0)
        }
    }
}

/// The blue, black and generic pips of a mana cost.
pub open spec fn cost_pips(cs: Seq<char>) -> (int, int, int) {
    let (u, b, g, n) = cost_scan(cs);
    (u, b, g + n)
}

/// The cost's pips add up to a number that fits in `u32`.
pub open spec fn cost_fits(cs: Seq<char>) -> bool {
    let (u, b, g) = cost_pips(cs);
    u + b + g <= u32::MAX
}

/// The lands can pay the cost: enough colored lands for all pips, enough blue lands for
/// the blue pips and enough black lands for the black pips.
pub open spec fn castable_with(s: HandSignals, cs: Seq<char>) -> bool {
    let (u, b, g) = cost_pips(cs);
    &&& s.colored_lands >= u + b + g
    &&& s.blue_lands >= u
    &&& s.black_lands >= b
}

/// Every reading of a prefix is non-negative and bounded by the reading of the whole.
proof fn lemma_cost_scan_mono(cs: Seq<char>, i: int)
    requires
        0 <= i <= cs.len(),
    ensures
        ({
            let (u1, b1, g1, n1) = cost_scan(cs.take(i));
            let (u2, b2, g2, n2) = cost_scan(cs);
            &&& 0 <= u1 <= u2
            &&& 0 <= b1 <= b2
            &&& 0 <= g1 && 0 <= n1
            &&& g1 + n1 <= g2 + n2
        }),
    decreases cs.len(),
{
    if i == cs.len() {
        assert(cs.take(i) =~= cs);
        if cs.len() > 0 {
            lemma_cost_scan_mono(cs.drop_last(), i - 1);
            assert(cs.drop_last().take(i - 1) =~= cs.drop_last());
        }
    } else {
        lemma_cost_scan_mono(cs.drop_last(), i);
        assert(cs.drop_last().take(i) =~= cs.take(i));
        lemma_cost_scan_mono(cs.drop_last(), cs.len() - 1);
        assert(cs.drop_last().take(cs.len() - 1) =~= cs.drop_last());
    }
}

/// Castability coverage: can the hand pay `def`'s mana cost off stable sources — lands
/// only, not one-shot Petals? Generic pips come from any colored land; a coloured pip
/// needs a land of that colour. So Ponder `{U}` wants one blue land, but Flow State
/// `{1}{U}` wants two lands (one blue). Whitespace around the cost reads as nothing.
pub fn stably_castable(s: &HandSignals, def: &CardFacts) -> (r: bool)
    requires
        cost_fits(def.mana_cost@),
    ensures
        r == castable_with(*s, def.mana_cost@),
{
    let ghost cost = def.mana_cost@;
    let cs = def.mana_cost.as_str();
    let len = cs.unicode_len();
    let mut blue: u32 = 0;
    let mut black: u32 = 0;
    let mut generic: u32 = 0;
    let mut num: u32 = 0;
    assert(cost.take(0) =~= Seq::<char>::empty());
    for i in 0..len
        invariant
            len == cost.len(),
            cs@ == cost,
            cost_fits(cost),
            (blue as int, black as int, generic as int, num as int) == cost_scan(cost.take(i as int)),
    {
        let ch = cs.get_char(i);
        proof {
            assert(cost.take(i + 1).drop_last() =~= cost.take(i as int));
            lemma_cost_scan_mono(cost, i + 1);
            lemma_cost_scan_mono(cost, i as int);
            lemma_cost_scan_mono(cost, cost.len() as int);
            assert(cost.take(cost.len() as int) =~= cost);
        }
        if '0' <= ch && ch <= '9' {
            let d = (ch as u32) - ('0' as u32);
            num = num * 10 + d;
        } else {
            generic = generic + num;
            num = 0;
            if ch == 'U' {
                blue = blue + 1;
            } else if ch == 'B' {
                black = black + 1;
            } else if ch == 'W' || ch == 'R' || ch == 'G' || ch == 'C' {
                generic = generic + 1;
            }
        }
    }
    proof {
        assert(cost.take(len as int) =~= cost);
        lemma_cost_scan_mono(cost, len as int);
    }
    generic = generic + num;
    s.colored_lands >= blue + black + generic && s.blue_lands >= blue && s.black_lands >= black
}

// ── per-card classification (named air and unknown cards count for nothing) ──

/// The card counts toward the signals: not named air, and known to the catalog.
pub open spec fn counted(c: HandCard) -> bool {
    !is_air_name(c.name@) && c.facts is Some
}

pub open spec fn land_card(c: HandCard) -> bool {
    counted(c) && c.facts->0.is_land
}

/// A land that taps blue unconditionally (a fetch counts).
pub open spec fn blue_land(c: HandCard) -> bool {
    land_card(c) && (c.role == CardRole::Fetch || card_taps_for(c.facts->0, Color::Blue))
}

/// A land that taps black unconditionally (a fetch counts).
pub open spec fn black_land(c: HandCard) -> bool {
    land_card(c) && (c.role == CardRole::Fetch || card_taps_for(c.facts->0, Color::Black))
}

pub open spec fn colored_land(c: HandCard) -> bool {
    blue_land(c) || black_land(c)
}

pub open spec fn role_card(c: HandCard, role: CardRole) -> bool {
    counted(c) && c.role == role
}

pub open spec fn payoff_card(c: HandCard) -> bool {
    role_card(c, CardRole::Payoff) || role_card(c, CardRole::PayoffTutor)
}

pub open spec fn tamiyo_card(c: HandCard) -> bool {
    counted(c) && c.name@ == "Tamiyo, Inquisitive Student"@
}

/// A real non-land card that neither digs, nor is the payoff, nor an accelerant.
pub open spec fn supporter_card(c: HandCard) -> bool {
    &&& counted(c)
    &&& !c.facts->0.digs_on_resolve
    &&& !c.facts->0.has_cycling_draw
    &&& !c.facts->0.is_land
    &&& !payoff_card(c)
    &&& c.role != CardRole::Ritual
    &&& c.role != CardRole::Petal
}

/// A cast-to-dig cantrip the lands of `s` can pay for.
pub open spec fn deep_look(c: HandCard, s: HandSignals) -> bool {
    counted(c) && c.facts->0.digs_on_resolve && castable_with(s, c.facts->0.mana_cost@)
}

/// A shallow look: a free cycler, a surveil land, or a fetch backed by a second land.
pub open spec fn marginal_look(c: HandCard, two_lands: bool) -> bool {
    &&& counted(c)
    &&& !c.facts->0.digs_on_resolve
    &&& (c.facts->0.has_cycling_draw || c.role == CardRole::BlackLandTapped || (c.role
        == CardRole::Fetch && two_lands))
}

/// The mana costs of the counted cantrips stay within `u32`.
pub open spec fn look_costs_fit(cards: Seq<HandCard>) -> bool {
    forall|i: int|
        0 <= i < cards.len() && counted(#[trigger] cards[i]) && cards[i].facts->0.digs_on_resolve
            ==> cost_fits(cards[i].facts->0.mana_cost@)
}

/// The mana-base counts of a hand (the first pass).
pub open spec fn mana_signals(cards: Seq<HandCard>, det_line: bool, tami_fast_flip: bool) -> HandSignals {
    let petals = count_where(cards, |c: HandCard| role_card(c, CardRole::Petal));
    let rituals = count_where(cards, |c: HandCard| role_card(c, CardRole::Ritual));
    let air = count_where(cards, |c: HandCard| is_air_name(c.name@));
    HandSignals {
        blue_lands: count_where(cards, |c: HandCard| blue_land(c)) as u32,
        black_lands: count_where(cards, |c: HandCard| black_land(c)) as u32,
        colored_lands: count_where(cards, |c: HandCard| colored_land(c)) as u32,
        lands: count_where(cards, |c: HandCard| land_card(c)) as u32,
        petals: petals as u32,
        rituals: rituals as u32,
        deep_looks: 0,
        marginal_looks: 0,
        named_air: (air + (if petals + rituals >= 1 { petals + rituals - 1 } else { 0 })) as u32,
        has_dd: count_where(cards, |c: HandCard| payoff_card(c)) > 0,
        has_tamiyo: count_where(cards, |c: HandCard| tamiyo_card(c)) > 0,
        fetch: count_where(cards, |c: HandCard| role_card(c, CardRole::Fetch)) > 0,
        supporters: count_where(cards, |c: HandCard| supporter_card(c)) as u32,
        det_line,
        tami_fast_flip,
    }
}

/// The signals of a hand: the mana-base counts, then the looks those lands can pay for.
pub open spec fn hand_signals_of(cards: Seq<HandCard>, det_line: bool, tami_fast_flip: bool) -> HandSignals {
    let base = mana_signals(cards, det_line, tami_fast_flip);
    let two_lands = base.lands >= 2;
    HandSignals {
        deep_looks: count_where(cards, |c: HandCard| deep_look(c, base)) as u32,
        marginal_looks: count_where(cards, |c: HandCard| marginal_look(c, two_lands)) as u32,
        ..base
    }
}

/// Compute the [`HandSignals`] of an opening hand. Named-air cards are skipped in every
/// count, as if they weren't drawn; cards the catalog doesn't know count for nothing.
pub fn hand_signals(hand: &OpeningHand) -> (s: HandSignals)
    requires
        hand.cards@.len() <= u32::MAX,
        look_costs_fit(hand.cards@),
    ensures
        s == hand_signals_of(hand.cards@, hand.det_line, hand.tami_fast_flip),
        s.lands <= hand.cards@.len(),
        s.petals <= hand.cards@.len(),
        s.rituals <= hand.cards@.len(),
        s.blue_lands <= s.colored_lands <= s.lands,
        s.black_lands <= s.colored_lands,
        s.deep_looks + s.marginal_looks <= hand.cards@.len(),
{
    let ghost cards = hand.cards@;
    let n = hand.cards.len();
    let mut blue_lands: u32 = 0;
    let mut black_lands: u32 = 0;
    let mut colored_lands: u32 = 0;
    let mut lands: u32 = 0;
    let mut petals: u32 = 0;
    let mut rituals: u32 = 0;
    let mut named_air: u32 = 0;
    let mut has_dd = false;
    let mut has_tamiyo = false;
    let mut fetch = false;
    let mut supporters: u32 = 0;
    // Pass 1: mana base (so colours are known before classifying looks).
    for i in 0..n
        invariant
            n == cards.len(),
            cards == hand.cards@,
            n <= u32::MAX,
            blue_lands == count_where(cards.take(i as int), |c: HandCard| blue_land(c)),
            black_lands == count_where(cards.take(i as int), |c: HandCard| black_land(c)),
            colored_lands == count_where(cards.take(i as int), |c: HandCard| colored_land(c)),
            lands == count_where(cards.take(i as int), |c: HandCard| land_card(c)),
            petals == count_where(cards.take(i as int), |c: HandCard| role_card(c, CardRole::Petal)),
            rituals == count_where(cards.take(i as int), |c: HandCard| role_card(c, CardRole::Ritual)),
            named_air == count_where(cards.take(i as int), |c: HandCard| is_air_name(c.name@)),
            has_dd == (count_where(cards.take(i as int), |c: HandCard| payoff_card(c)) > 0),
            has_tamiyo == (count_where(cards.take(i as int), |c: HandCard| tamiyo_card(c)) > 0),
            fetch == (count_where(cards.take(i as int), |c: HandCard| role_card(c, CardRole::Fetch)) > 0),
            supporters == count_where(cards.take(i as int), |c: HandCard| supporter_card(c)),
    {
        proof {
            lemma_count_step(cards, |c: HandCard| blue_land(c), i as int);
            lemma_count_step(cards, |c: HandCard| black_land(c), i as int);
            lemma_count_step(cards, |c: HandCard| colored_land(c), i as int);
            lemma_count_step(cards, |c: HandCard| land_card(c), i as int);
            lemma_count_step(cards, |c: HandCard| role_card(c, CardRole::Petal), i as int);
            lemma_count_step(cards, |c: HandCard| role_card(c, CardRole::Ritual), i as int);
            lemma_count_step(cards, |c: HandCard| is_air_name(c.name@), i as int);
            lemma_count_step(cards, |c: HandCard| payoff_card(c), i as int);
            lemma_count_step(cards, |c: HandCard| tamiyo_card(c), i as int);
            lemma_count_step(cards, |c: HandCard| role_card(c, CardRole::Fetch), i as int);
            lemma_count_step(cards, |c: HandCard| supporter_card(c), i as int);
            let t = cards.take(i as int);
            lemma_count_le_len(t, |c: HandCard| blue_land(c));
            lemma_count_le_len(t, |c: HandCard| black_land(c));
            lemma_count_le_len(t, |c: HandCard| colored_land(c));
            lemma_count_le_len(t, |c: HandCard| land_card(c));
            lemma_count_le_len(t, |c: HandCard| role_card(c, CardRole::Petal));
            lemma_count_le_len(t, |c: HandCard| role_card(c, CardRole::Ritual));
            lemma_count_le_len(t, |c: HandCard| is_air_name(c.name@));
            lemma_count_le_len(t, |c: HandCard| supporter_card(c));
        }
        let card = &hand.cards[i];
        if is_air(card.name.as_str()) {
            named_air = named_air + 1;
        } else {
            match &card.facts {
                None => {},
                Some(def) => {
                    let role = card.role;
                    if def.is_land {
                        lands = lands + 1;
                        let is_fetch = role == CardRole::Fetch;
                        let u = is_fetch || taps_for(def, Color::Blue);
                        let b = is_fetch || taps_for(def, Color::Black);
                        if u {
                            blue_lands = blue_lands + 1;
                        }
                        if b {
                            black_lands = black_lands + 1;
                        }
                        if u || b {
                            colored_lands = colored_lands + 1;
                        }
                    }
                    if role == CardRole::Payoff || role == CardRole::PayoffTutor {
                        has_dd = true;
                    } else if role == CardRole::Petal {
                        petals = petals + 1;
                    } else if role == CardRole::Ritual {
                        rituals = rituals + 1;
                    } else if role == CardRole::Fetch {
                        fetch = true;
                    }
                    if same_name(card.name.as_str(), "Tamiyo, Inquisitive Student") {
                        has_tamiyo = true;
                    }
                    // A supporter: a real non-land card that neither digs nor is the payoff
                    // nor an accelerant — interaction or a threat body.
                    let is_dig = def.digs_on_resolve || def.has_cycling_draw;
                    let is_payoff = role == CardRole::Payoff || role == CardRole::PayoffTutor;
                    let is_accelerant = role == CardRole::Ritual || role == CardRole::Petal;
                    if !is_dig && !def.is_land && !is_payoff && !is_accelerant {
                        supporters = supporters + 1;
                    }
                },
            }
        }
    }
    proof {
        assert(cards.take(n as int) =~= cards);
        lemma_count_disjoint(
            cards,
            |c: HandCard| role_card(c, CardRole::Petal),
            |c: HandCard| role_card(c, CardRole::Ritual),
        );
        lemma_count_disjoint(
            cards,
            |c: HandCard| is_air_name(c.name@),
            |c: HandCard| role_card(c, CardRole::Petal) || role_card(c, CardRole::Ritual),
        );
        lemma_count_or(
            cards,
            |c: HandCard| role_card(c, CardRole::Petal),
            |c: HandCard| role_card(c, CardRole::Ritual),
            |c: HandCard| role_card(c, CardRole::Petal) || role_card(c, CardRole::Ritual),
        );
        lemma_count_le_len(cards, |c: HandCard| land_card(c));
        lemma_count_le_len(cards, |c: HandCard| role_card(c, CardRole::Petal));
        lemma_count_le_len(cards, |c: HandCard| role_card(c, CardRole::Ritual));
    }
    // Accelerants don't scale: any beyond the first join the bottomable pool.
    named_air = named_air + (petals + rituals).saturating_sub(1);
    let base = HandSignals {
        blue_lands,
        black_lands,
        colored_lands,
        lands,
        petals,
        rituals,
        deep_looks: 0,
        marginal_looks: 0,
        named_air,
        has_dd,
        has_tamiyo,
        fetch,
        supporters,
        det_line: hand.det_line,
        tami_fast_flip: hand.tami_fast_flip,
    };
    assert(base == mana_signals(cards, hand.det_line, hand.tami_fast_flip));
    // Pass 2: classify looks (needs the pass-1 mana base).
    let have_2_lands = lands >= 2;
    let mut deep_looks: u32 = 0;
    let mut marginal_looks: u32 = 0;
    for i in 0..n
        invariant
            n == cards.len(),
            cards == hand.cards@,
            n <= u32::MAX,
            look_costs_fit(cards),
            have_2_lands == (base.lands >= 2),
            deep_looks == count_where(cards.take(i as int), |c: HandCard| deep_look(c, base)),
            marginal_looks == count_where(
                cards.take(i as int),
                |c: HandCard| marginal_look(c, have_2_lands),
            ),
            deep_looks + marginal_looks <= i,
    {
        proof {
            lemma_count_step(cards, |c: HandCard| deep_look(c, base), i as int);
            lemma_count_step(cards, |c: HandCard| marginal_look(c, have_2_lands), i as int);
        }
        let card = &hand.cards[i];
        if !is_air(card.name.as_str()) {
            match &card.facts {
                None => {},
                Some(def) => {
                    if def.digs_on_resolve {
                        assert(counted(cards[i as int]));
                        if stably_castable(&base, def) {
                            deep_looks = deep_looks + 1;
                        }
                    } else if def.has_cycling_draw {
                        marginal_looks = marginal_looks + 1;
                    } else if card.role == CardRole::BlackLandTapped || (card.role == CardRole::Fetch
                        && have_2_lands) {
                        marginal_looks = marginal_looks + 1;
                    }
                },
            }
        }
    }
    proof {
        assert(cards.take(n as int) =~= cards);
        lemma_count_mono(cards, |c: HandCard| blue_land(c), |c: HandCard| colored_land(c));
        lemma_count_mono(cards, |c: HandCard| black_land(c), |c: HandCard| colored_land(c));
        lemma_count_mono(cards, |c: HandCard| colored_land(c), |c: HandCard| land_card(c));
    }
    HandSignals { deep_looks, marginal_looks, ..base }
}

/// The "Realistic" keep rule: keep iff some plan holds —
/// - **deterministic line** — the solver guarantees Doomsday by the cutoff;
/// - otherwise only with a real mana base (a colored land), and then
///   - **fast dd** — Doomsday + a black source + a deep look (or BB + any look);
///   - **tami flip** — a deterministic Tamiyo flip by turn 2;
///   - **dig** — a black source, not flooded after the bottom, a deep look and a second
///     piece: at the opening 7 a strong one (a second deep look or a supporter), after a
///     mulligan also a marginal look or an accelerant.
pub open spec fn realistic_keeps(s: HandSignals, mulligans_taken: u32) -> bool {
    let fast_dd = s.has_dd && s.spec_black_src() && (s.deep_looks >= 1 || (s.spec_bb()
        && s.spec_looks() >= 1));
    let strong = s.deep_looks >= 2 || s.supporters >= 1;
    let relaxed = strong || s.marginal_looks >= 1 || s.petals + s.rituals >= 1;
    let dig = s.spec_black_src() && !s.spec_flooded(mulligans_taken) && s.deep_looks >= 1 && (if mulligans_taken == 0 {
        strong
    } else {
        relaxed
    });
    s.det_line || (s.spec_mana_base() && (fast_dd || s.tami_fast_flip || dig))
}

/// The "Realistic" keep decision at mulligan depth `mulligans_taken` — keep iff the
/// hand holds a viable plan (see [`realistic_keeps`]). Returns true to KEEP; the
/// always-keep-at-4 floor is applied by [`should_mulligan`].
pub fn realistic_keep(s: &HandSignals, mulligans_taken: u32) -> (keep: bool)
    requires
        s.sums_fit(),
    ensures
        keep == realistic_keeps(*s, mulligans_taken),
{
    if s.det_line {
        return true;
    }
    if !s.mana_base() {
        return false;  // no real colored land → nothing to cast off
    }
    // Fast DD: the payoff + a route to BBB. A lone black source needs a deep look;
    // BB lets a marginal look finish the third black.
    if s.has_dd && s.black_src() && (s.deep_looks >= 1 || (s.bb() && s.looks() >= 1)) {
        return true;
    }
    if s.tami_fast_flip {
        return true;
    }
    // Dig: a deep look + a second piece, scaled by hand size.
    if s.black_src() && !s.flooded(mulligans_taken) && s.deep_looks >= 1 {
        let strong = s.deep_looks >= 2 || s.supporters >= 1;
        let relaxed = strong || s.marginal_looks >= 1 || (s.petals + s.rituals) >= 1;
        let second_piece = if mulligans_taken == 0 {
            strong
        } else {
            relaxed
        };
        if second_piece {
            return true;
        }
    }
    false
}

/// Aggressive: keep a deterministic line by the cutoff, or Doomsday + BB + a castable
/// cantrip (deep or marginal). With the keep-every-7 override set, always keep.
pub open spec fn aggressive_keeps(s: HandSignals, keep7_override: bool) -> bool {
    keep7_override || s.det_line || (s.has_dd && s.spec_bb() && s.deep_looks + s.marginal_looks >= 1)
}

/// The opening hand is small enough that its signal counts and their sums fit in `u32`,
/// and the costs of its cantrips fit too.
pub open spec fn hand_fits(hand: OpeningHand) -> bool {
    hand.cards@.len() <= u32::MAX / 2 && look_costs_fit(hand.cards@)
}

/// Aggressive: the fanatical race bar. Keep only a hand that is a guaranteed-or-nearly
/// guaranteed fast Doomsday, mulliganing anything speculative. `keep7_override` is the
/// keep-everything switch of the gameplay experiment (set by the `KEEP7` environment
/// variable in the command-line tool).
pub fn aggressive_keep(hand: &OpeningHand, keep7_override: bool) -> (keep: bool)
    requires
        hand_fits(*hand),
    ensures
        keep == aggressive_keeps(
            hand_signals_of(hand.cards@, hand.det_line, hand.tami_fast_flip),
            keep7_override,
        ),
{
    if keep7_override {
        return true;
    }
    let s = hand_signals(hand);
    if s.det_line {
        return true;
    }
    s.has_dd && s.bb() && (s.deep_looks + s.marginal_looks) >= 1
}

/// The mulligan decision under `mode` at depth `mulligans_taken`: every mode always
/// keeps the 4-card hand (`mulligans_taken >= 3`); above it, each mode mulligans iff its
/// keep rule rejects the hand — the learned modes by `learned_keeps`, the learned
/// policy's verdict on this hand.
pub open spec fn mulligans(
    mode: MullMode,
    hand: OpeningHand,
    mulligans_taken: u32,
    keep7_override: bool,
    learned_keeps: bool,
) -> bool {
    let s = hand_signals_of(hand.cards@, hand.det_line, hand.tami_fast_flip);
    if mulligans_taken >= 3 {
        false
    } else {
        match mode {
            MullMode::Keep7 => false,
            MullMode::Realistic => !realistic_keeps(s, mulligans_taken),
            MullMode::Aggressive => !aggressive_keeps(s, keep7_override),
            MullMode::LearnedSpeed | MullMode::LearnedInteractive => !learned_keeps,
        }
    }
}

/// Whether to MULLIGAN this hand under `mode`. Always keep at 4 cards
/// (`mulligans_taken >= 3`), in every mode; otherwise dispatch to the mode's keep rule.
/// The learned modes follow `learned_keeps`, the learned policy's keep verdict for this
/// hand.
pub fn should_mulligan(
    mode: MullMode,
    hand: &OpeningHand,
    mulligans_taken: u32,
    keep7_override: bool,
    learned_keeps: bool,
) -> (mull: bool)
    requires
        hand_fits(*hand),
    ensures
        mull == mulligans(mode, *hand, mulligans_taken, keep7_override, learned_keeps),
{
    if mulligans_taken >= 3 {
        return false;  // always keep the 4-card hand
    }
    let keep = match mode {
        MullMode::Keep7 => true,
        MullMode::Realistic => {
            let s = hand_signals(hand);
            realistic_keep(&s, mulligans_taken)
        },
        MullMode::Aggressive => aggressive_keep(hand, keep7_override),
        MullMode::LearnedSpeed | MullMode::LearnedInteractive => learned_keeps,
    };
    !keep
}

/// The 4-card hand is always kept, in every mode: at three or more mulligans no mode
/// mulligans, whatever the learned verdict.
pub proof fn law_four_card_floor(
    mode: MullMode,
    hand: OpeningHand,
    mulligans_taken: u32,
    keep7_override: bool,
    learned_keeps: bool,
)
    requires
        mulligans_taken >= 3,
    ensures
        !mulligans(mode, hand, mulligans_taken, keep7_override, learned_keeps),
{
}

/// Keep7 never mulligans.
pub proof fn law_keep7_never_mulligans(
    hand: OpeningHand,
    mulligans_taken: u32,
    keep7_override: bool,
    learned_keeps: bool,
)
    ensures
        !mulligans(MullMode::Keep7, hand, mulligans_taken, keep7_override, learned_keeps),
{
}

/// The Realistic bar only relaxes as you mulligan: a hand kept at one depth is kept at
/// every deeper one (more cards bottomed, so less flood; any second piece suffices).
pub proof fn law_realistic_relaxes_with_mulligans(s: HandSignals, shallow: u32, deep: u32)
    requires
        shallow <= deep,
        realistic_keeps(s, shallow),
    ensures
        realistic_keeps(s, deep),
{
}

/// A real mana base (a colored land) and a deterministic Tamiyo flip by turn 2 is a
/// Realistic keep, at every mulligan depth.
pub proof fn law_realistic_keeps_tamiyo_flip(s: HandSignals, mulligans_taken: u32)
    requires
        s.colored_lands >= 1,
        s.tami_fast_flip,
    ensures
        realistic_keeps(s, mulligans_taken),
{
}

/// Every surveil land (a tapped black land) that is counted and does not dig is a
/// marginal look: a hand has at least as many marginal looks as it has such lands.
pub proof fn law_surveil_land_is_a_marginal_look(
    cards: Seq<HandCard>,
    det_line: bool,
    tami_fast_flip: bool,
)
    requires
        cards.len() <= u32::MAX,
    ensures
        hand_signals_of(cards, det_line, tami_fast_flip).marginal_looks >= count_where(
            cards,
            |c: HandCard|
                !is_air_name(c.name@) && c.facts is Some && c.role == CardRole::BlackLandTapped
                    && !c.facts->0.digs_on_resolve,
        ),
{
    let two_lands = mana_signals(cards, det_line, tami_fast_flip).lands >= 2;
    let p = |c: HandCard|
        !is_air_name(c.name@) && c.facts is Some && c.role == CardRole::BlackLandTapped
            && !c.facts->0.digs_on_resolve;
    let q = |c: HandCard| marginal_look(c, two_lands);
    assert forall|x: HandCard| #[trigger] p(x) implies q(x) by {}
    lemma_count_mono(cards, p, q);
    lemma_count_le_len(cards, q);
}

/// Without the keep-7 override and without a deterministic line, the Aggressive rule
/// keeps only a hand holding Doomsday (or a tutor for it) with two black sources and a
/// look.
pub proof fn law_aggressive_needs_doomsday(cards: Seq<HandCard>, tami_fast_flip: bool)
    ensures
        aggressive_keeps(hand_signals_of(cards, false, tami_fast_flip), false) ==> {
            let s = hand_signals_of(cards, false, tami_fast_flip);
            &&& count_where(cards, |c: HandCard| payoff_card(c)) >= 1
            &&& s.black_lands + s.petals >= 2
            &&& s.deep_looks + s.marginal_looks >= 1
        },
{
}

/// Without a deterministic line, a hand with no colored land is never a Realistic keep.
pub proof fn law_realistic_needs_mana_base(s: HandSignals, mulligans_taken: u32)
    requires
        !s.det_line,
        s.colored_lands == 0,
    ensures
        !realistic_keeps(s, mulligans_taken),
{
}

/// A deterministic Doomsday line is always kept by the Realistic and Aggressive rules.
pub proof fn law_det_line_is_kept(s: HandSignals, mulligans_taken: u32, keep7_override: bool)
    requires
        s.det_line,
    ensures
        realistic_keeps(s, mulligans_taken),
        aggressive_keeps(s, keep7_override),
{
}

/// Without a deterministic line, a fast Tamiyo flip or Doomsday in hand, a hand with no
/// deep look is never a Realistic keep, however many marginal looks and supporters it
/// holds and however deep the mulligan.
pub proof fn law_no_deep_look_no_keep(s: HandSignals, mulligans_taken: u32)
    requires
        !s.det_line,
        !s.tami_fast_flip,
        !s.has_dd,
        s.deep_looks == 0,
    ensures
        !realistic_keeps(s, mulligans_taken),
{
}

/// Named-air cards are read as if they weren't drawn: inserting one anywhere in a hand
/// changes no signal but the named-air count, which grows by one.
pub proof fn law_air_is_invisible(cards: Seq<HandCard>, i: int, air: HandCard, det_line: bool, tami: bool)
    requires
        0 <= i <= cards.len(),
        is_air_name(air.name@),
        cards.len() + 1 <= u32::MAX,
    ensures
        hand_signals_of(cards.insert(i, air), det_line, tami) == (HandSignals {
            named_air: (hand_signals_of(cards, det_line, tami).named_air + 1) as u32,
            ..hand_signals_of(cards, det_line, tami)
        }),
{
    let c2 = cards.insert(i, air);
    lemma_count_insert(cards, |c: HandCard| blue_land(c), i, air);
    lemma_count_insert(cards, |c: HandCard| black_land(c), i, air);
    lemma_count_insert(cards, |c: HandCard| colored_land(c), i, air);
    lemma_count_insert(cards, |c: HandCard| land_card(c), i, air);
    lemma_count_insert(cards, |c: HandCard| role_card(c, CardRole::Petal), i, air);
    lemma_count_insert(cards, |c: HandCard| role_card(c, CardRole::Ritual), i, air);
    lemma_count_insert(cards, |c: HandCard| is_air_name(c.name@), i, air);
    lemma_count_insert(cards, |c: HandCard| payoff_card(c), i, air);
    lemma_count_insert(cards, |c: HandCard| tamiyo_card(c), i, air);
    lemma_count_insert(cards, |c: HandCard| role_card(c, CardRole::Fetch), i, air);
    lemma_count_insert(cards, |c: HandCard| supporter_card(c), i, air);
    let b1 = mana_signals(cards, det_line, tami);
    let b2 = mana_signals(c2, det_line, tami);
    lemma_count_le_len(cards, |c: HandCard| is_air_name(c.name@));
    lemma_count_disjoint(
        cards,
        |c: HandCard| role_card(c, CardRole::Petal),
        |c: HandCard| role_card(c, CardRole::Ritual),
    );
    lemma_count_disjoint(
        cards,
        |c: HandCard| is_air_name(c.name@),
        |c: HandCard| role_card(c, CardRole::Petal) || role_card(c, CardRole::Ritual),
    );
    lemma_count_or(
        cards,
        |c: HandCard| role_card(c, CardRole::Petal),
        |c: HandCard| role_card(c, CardRole::Ritual),
        |c: HandCard| role_card(c, CardRole::Petal) || role_card(c, CardRole::Ritual),
    );
    lemma_count_le_len(cards, |c: HandCard| land_card(c));
    lemma_count_le_len(cards, |c: HandCard| blue_land(c));
    lemma_count_le_len(cards, |c: HandCard| black_land(c));
    lemma_count_le_len(cards, |c: HandCard| colored_land(c));
    lemma_count_le_len(cards, |c: HandCard| supporter_card(c));
    assert(b2 == HandSignals { named_air: (b1.named_air + 1) as u32, ..b1 });
    lemma_count_ext(c2, |c: HandCard| deep_look(c, b2), |c: HandCard| deep_look(c, b1));
    lemma_count_insert(cards, |c: HandCard| deep_look(c, b1), i, air);
    lemma_count_insert(cards, |c: HandCard| marginal_look(c, b1.lands >= 2), i, air);
}

/// The signals are plain card counts: they depend on which cards are in hand, not on
/// the order they were drawn in.
pub proof fn law_signals_ignore_order(c1: Seq<HandCard>, c2: Seq<HandCard>, det_line: bool, tami: bool)
    requires
        c1.to_multiset() == c2.to_multiset(),
    ensures
        hand_signals_of(c1, det_line, tami) == hand_signals_of(c2, det_line, tami),
{
    lemma_count_multiset(c1, c2, |c: HandCard| blue_land(c));
    lemma_count_multiset(c1, c2, |c: HandCard| black_land(c));
    lemma_count_multiset(c1, c2, |c: HandCard| colored_land(c));
    lemma_count_multiset(c1, c2, |c: HandCard| land_card(c));
    lemma_count_multiset(c1, c2, |c: HandCard| role_card(c, CardRole::Petal));
    lemma_count_multiset(c1, c2, |c: HandCard| role_card(c, CardRole::Ritual));
    lemma_count_multiset(c1, c2, |c: HandCard| is_air_name(c.name@));
    lemma_count_multiset(c1, c2, |c: HandCard| payoff_card(c));
    lemma_count_multiset(c1, c2, |c: HandCard| tamiyo_card(c));
    lemma_count_multiset(c1, c2, |c: HandCard| role_card(c, CardRole::Fetch));
    lemma_count_multiset(c1, c2, |c: HandCard| supporter_card(c));
    let base = mana_signals(c1, det_line, tami);
    assert(base == mana_signals(c2, det_line, tami));
    lemma_count_multiset(c1, c2, |c: HandCard| deep_look(c, base));
    lemma_count_multiset(c1, c2, |c: HandCard| marginal_look(c, base.lands >= 2));
}

} // verus!
