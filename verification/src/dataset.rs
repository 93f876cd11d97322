//! The header of the keep-all-7 dataset: the deck's distinct card names in order,
//! quoted, followed by the signal and label columns.

use vstd::prelude::*;
use vstd::string::StrSliceExecFns;
use vstd::string::StringExecFns;

use crate::goldfish::{deck_view, DeckEntry};
use crate::names::names;

verus! {

/// Strict lexicographic order on character sequences (by code point), as `str`
/// compares.
pub open spec fn lex_lt(a: Seq<char>, b: Seq<char>) -> bool
    decreases a.len(),
{
    if a.len() == 0 {
        b.len() > 0
    } else if b.len() == 0 {
        false
    } else if a[0] != b[0] {
        a[0] < b[0]
    } else {
        lex_lt(a.drop_first(), b.drop_first())
    }
}

/// The order is transitive.
pub proof fn lemma_lex_lt_transitive(a: Seq<char>, b: Seq<char>, c: Seq<char>)
    requires
        lex_lt(a, b),
        lex_lt(b, c),
    ensures
        lex_lt(a, c),
    decreases a.len(),
{
    if a.len() > 0 && b.len() > 0 && c.len() > 0 && a[0] == b[0] && b[0] == c[0] {
        lemma_lex_lt_transitive(a.drop_first(), b.drop_first(), c.drop_first());
    }
}

/// Two distinct sequences are ordered one way or the other, and never both ways.
pub proof fn lemma_lex_lt_total(a: Seq<char>, b: Seq<char>)
    ensures
        a != b ==> lex_lt(a, b) || lex_lt(b, a),
        !(lex_lt(a, b) && lex_lt(b, a)),
        !lex_lt(a, a),
    decreases a.len(),
{
    if a.len() > 0 && b.len() > 0 && a[0] == b[0] {
        lemma_lex_lt_total(a.drop_first(), b.drop_first());
        if a.drop_first() == b.drop_first() {
            assert(a =~= seq![a[0]] + a.drop_first());
            assert(b =~= seq![b[0]] + b.drop_first());
        }
    }
    if a.len() > 0 {
        lemma_lex_lt_total(a.drop_first(), a.drop_first());
    }
    if a.len() == 0 && b.len() == 0 {
        assert(a =~= b);
    }
}

/// Whether `a` comes strictly before `b` (see [`lex_lt`]).
pub fn name_lt(a: &str, b: &str) -> (r: bool)
    ensures
        r == lex_lt(a@, b@),
{
    let na = a.unicode_len();
    let nb = b.unicode_len();
    let mut i: usize = 0;
    proof {
        assert(a@.skip(0) =~= a@);
        assert(b@.skip(0) =~= b@);
    }
    while i < na && i < nb
        invariant
            na == a@.len(),
            nb == b@.len(),
            i <= na && i <= nb,
            lex_lt(a@, b@) == lex_lt(a@.skip(i as int), b@.skip(i as int)),
        decreases na - i,
    {
        let x = a.get_char(i);
        let y = b.get_char(i);
        if x != y {
            return x < y;
        }
        proof {
            assert(a@.skip(i as int).drop_first() =~= a@.skip(i + 1));
            assert(b@.skip(i as int).drop_first() =~= b@.skip(i + 1));
        }
        i = i + 1;
    }
    i < nb
}

/// Every name of `s` comes strictly before every later one (so no name repeats).
pub open spec fn strictly_sorted(s: Seq<Seq<char>>) -> bool {
    forall|i: int, j: int| 0 <= i < j < s.len() ==> lex_lt(#[trigger] s[i], #[trigger] s[j])
}

/// Insert `x` into the strictly sorted `v` unless it is already there.
fn insert_sorted(v: &mut Vec<String>, x: &String)
    requires
        strictly_sorted(names(old(v)@)),
    ensures
        strictly_sorted(names(final(v)@)),
        names(final(v)@).to_set() == names(old(v)@).to_set().insert(x@),
{
    let ghost old_names = names(v@);
    let n = v.len();
    let mut p: usize = 0;
    while p < n && name_lt(v[p].as_str(), x.as_str())
        invariant
            n == v@.len(),
            p <= n,
            old_names == names(v@),
            strictly_sorted(old_names),
            forall|i: int| 0 <= i < p ==> lex_lt(#[trigger] old_names[i], x@),
        decreases n - p,
    {
        p = p + 1;
    }
    if p < n && crate::names::same_name(v[p].as_str(), x.as_str()) {
        proof {
            assert(old_names[p as int] == x@);
            assert(old_names.contains(x@));
            assert(old_names.to_set().insert(x@) =~= old_names.to_set());
        }
        return;
    }
    proof {
        if p < n {
            lemma_lex_lt_total(old_names[p as int], x@);
            assert forall|j: int| p <= j < n implies lex_lt(x@, #[trigger] old_names[j]) by {
                if j > p {
                    lemma_lex_lt_transitive(x@, old_names[p as int], old_names[j]);
                }
            }
        }
    }
    v.insert(p, x.clone());
    proof {
        let nn = names(v@);
        assert(nn =~= old_names.insert(p as int, x@));
        assert forall|i: int, j: int| 0 <= i < j < nn.len() implies lex_lt(
            #[trigger] nn[i],
            #[trigger] nn[j],
        ) by {
            if i < p && j > p {
                assert(nn[j] == old_names[j - 1]);
                assert(lex_lt(old_names[i], x@));
                lemma_lex_lt_transitive(old_names[i], x@, old_names[j - 1]);
            }
        }
        assert(nn.to_set() =~= old_names.to_set().insert(x@)) by {
            assert forall|y: Seq<char>| nn.to_set().contains(y) implies old_names.to_set().insert(
                x@,
            ).contains(y) by {
                let k = choose|k: int| 0 <= k < nn.len() && nn[k] == y;
                if k < p {
                    assert(old_names[k] == y);
                } else if k > p {
                    assert(old_names[k - 1] == y);
                }
            }
            assert forall|y: Seq<char>| old_names.to_set().insert(x@).contains(y) implies nn.to_set().contains(
                y,
            ) by {
                if y == x@ {
                    assert(nn[p as int] == y);
                } else {
                    let k = choose|k: int| 0 <= k < old_names.len() && old_names[k] == y;
                    if k < p {
                        assert(nn[k] == y);
                    } else {
                        assert(nn[k + 1] == y);
                    }
                }
            }
        }
    }
}

/// The distinct card names of a decklist, in order (see [`lex_lt`]).
pub fn sorted_card_names(deck: &[DeckEntry]) -> (cards: Vec<String>)
    ensures
        strictly_sorted(names(cards@)),
        names(cards@).to_set() == deck_view(deck@).map_values(
            |e: (Seq<char>, i32, Seq<char>)| e.0,
        ).to_set(),
{
    let ghost dn = deck_view(deck@).map_values(|e: (Seq<char>, i32, Seq<char>)| e.0);
    let mut cards: Vec<String> = Vec::new();
    let n = deck.len();
    proof {
        assert(names(cards@) =~= Seq::<Seq<char>>::empty());
        assert(dn.take(0).to_set() =~= names(cards@).to_set());
    }
    for i in 0..n
        invariant
            n == deck@.len(),
            dn == deck_view(deck@).map_values(|e: (Seq<char>, i32, Seq<char>)| e.0),
            strictly_sorted(names(cards@)),
            names(cards@).to_set() == dn.take(i as int).to_set(),
    {
        insert_sorted(&mut cards, &deck[i].0);
        proof {
            assert(dn.take(i + 1) =~= dn.take(i as int).push(deck@[i as int].0@));
            dn.take(i as int).lemma_push_to_set_commute(deck@[i as int].0@);
        }
    }
    proof {
        assert(dn.take(n as int) =~= dn);
    }
    cards
}

/// The quoted names, each followed by a comma.
pub open spec fn quoted_columns(cards: Seq<Seq<char>>) -> Seq<char>
    decreases cards.len(),
{
    if cards.len() == 0 {
        seq![]
    } else {
        quoted_columns(cards.drop_last()) + seq!['"'] + cards.last() + seq!['"', ',']
    }
}

/// The signal and label columns that follow the card columns.
pub open spec fn label_columns() -> Seq<char> {
    "det_line,tami_flip,p_cast,realistic,aggressive,win\n"@
}

/// The dataset's header line: each card name quoted (names may hold commas), then the
/// signal and label columns, comma-separated (a lone comma stands for no card columns).
pub open spec fn header_line(cards: Seq<Seq<char>>) -> Seq<char> {
    (if cards.len() == 0 {
        seq![',']
    } else {
        quoted_columns(cards)
    }) + label_columns()
}

/// The dataset's header line (see [`header_line`]).
pub fn dataset_header(cards: &[String]) -> (h: String)
    ensures
        h@ == header_line(names(cards@)),
{
    let ghost cn = names(cards@);
    let mut h = String::new();
    proof {
        reveal_strlit("\"");
        reveal_strlit("\",");
        assert(cn.take(0) =~= Seq::<Seq<char>>::empty());
        assert(h@ =~= quoted_columns(cn.take(0)));
    }
    let n = cards.len();
    for i in 0..n
        invariant
            n == cards@.len(),
            cn == names(cards@),
            h@ == quoted_columns(cn.take(i as int)),
            "\""@ == seq!['"'],
            "\","@ == seq!['"', ','],
    {
        h.append("\"");
        h.append(cards[i].as_str());
        h.append("\",");
        proof {
            assert(cn.take(i + 1).drop_last() =~= cn.take(i as int));
            assert(cn.take(i + 1).last() == cards@[i as int]@);
        }
    }
    proof {
        assert(cn.take(n as int) =~= cn);
        reveal_strlit(",");
    }
    if n == 0 {
        h.append(",");
    }
    h.append("det_line,tami_flip,p_cast,realistic,aggressive,win\n");
    h
}

} // verus!
