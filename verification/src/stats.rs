//! The pilot's per-game summary line in the decision log:
//! `STATS mull=<k> pred=<p> det=<0|1>`.
//!
//! The first log line that starts with `STATS ` is split into whitespace-separated
//! tokens; the last `mull=`, `pred=` and `det=` tokens give the fields. `mull` and `det`
//! are unsigned 8-bit numbers (an optional `+`, then decimal digits); `det` is true
//! when non-zero. The prediction is a decimal fraction and is returned as its text.
//! A line missing a field, or whose `mull`/`det` is not a number, gives no summary.

use vstd::prelude::*;
use vstd::string::StrSliceExecFns;

verus! {

/// Whether `c` has the Unicode `White_Space` property (the characters that
/// `char::is_whitespace` accepts): tab through carriage return, space, next line,
/// no-break space, ogham space mark, the en quad through hair space block, line and
/// paragraph separators, narrow no-break space, medium mathematical space and
/// ideographic space.
pub open spec fn white_space(c: char) -> bool {
    ||| '\t' <= c && c <= '\r'
    ||| c == ' '
    ||| c == '\u{85}'
    ||| c == '\u{a0}'
    ||| c == '\u{1680}'
    ||| '\u{2000}' <= c && c <= '\u{200a}'
    ||| c == '\u{2028}'
    ||| c == '\u{2029}'
    ||| c == '\u{202f}'
    ||| c == '\u{205f}'
    ||| c == '\u{3000}'
}

/// Whether `c` is Unicode whitespace (see [`white_space`]).
pub fn is_white_space(c: char) -> (r: bool)
    ensures
        r == white_space(c),
{
    ('\t' <= c && c <= '\r') || c == ' ' || c == '\u{85}' || c == '\u{a0}' || c == '\u{1680}'
        || ('\u{2000}' <= c && c <= '\u{200a}') || c == '\u{2028}' || c == '\u{2029}' || c
        == '\u{202f}' || c == '\u{205f}' || c == '\u{3000}'
}

/// Reading a line left to right: the completed whitespace-separated tokens, and the
/// token being read.
pub open spec fn token_scan(cs: Seq<char>) -> (Seq<Seq<char>>, Seq<char>)
    decreases cs.len(),
{
    if cs.len() == 0 {
        (seq![], seq![])
    } else {
        let (toks, cur) = token_scan(cs.drop_last());
        let ch = cs.last();
        if white_space(ch) {
            if cur.len() > 0 {
                (toks.push(cur), seq![])
            } else {
                (toks, cur)
            }
        } else {
            (toks, cur.push(ch))
        }
    }
}

/// The whitespace-separated tokens of a line: its maximal runs of non-whitespace.
pub open spec fn tokens(cs: Seq<char>) -> Seq<Seq<char>> {
    let (toks, cur) = token_scan(cs);
    if cur.len() > 0 {
        toks.push(cur)
    } else {
        toks
    }
}

pub open spec fn has_prefix(s: Seq<char>, prefix: Seq<char>) -> bool {
    s.len() >= prefix.len() && s.take(prefix.len() as int) == prefix
}

pub open spec fn is_decimal_digit(c: char) -> bool {
    '0' <= c && c <= '9'
}

/// The value of a string of decimal digits.
pub open spec fn decimal_value(ds: Seq<char>) -> nat
    decreases ds.len(),
{
    if ds.len() == 0 {
        0
    } else {
        decimal_value(ds.drop_last()) * 10 + (ds.last() as int - '0' as int) as nat
    }
}

/// The digits of an unsigned number: without its leading `+`, if any.
pub open spec fn unsigned_digits(s: Seq<char>) -> Seq<char> {
    if s.len() > 0 && s[0] == '+' {
        s.skip(1)
    } else {
        s
    }
}

pub open spec fn all_decimal_digits(ds: Seq<char>) -> bool {
    forall|i: int| 0 <= i < ds.len() ==> is_decimal_digit(#[trigger] ds[i])
}

/// An unsigned 8-bit number: an optional `+`, then one or more decimal digits, of value
/// at most 255; `None` for anything else.
pub open spec fn parse_u8(s: Seq<char>) -> Option<u8> {
    let ds = unsigned_digits(s);
    if ds.len() > 0 && all_decimal_digits(ds) && decimal_value(ds) <= 255 {
        Some(decimal_value(ds) as u8)
    } else {
        None
    }
}

/// The fields read so far: the last `mull=`, `pred=` and `det=` tokens, parsed (`None`
/// when absent or, for the numbers, not a number).
struct FieldScan {
    mull: Option<u8>,
    pred: Option<Vec<char>>,
    det: Option<bool>,
}

/// The fields read so far, as plain values: mull, prediction text, det.
spec fn fields_view(f: FieldScan) -> (Option<u8>, Option<Seq<char>>, Option<bool>) {
    (
        f.mull,
        match f.pred {
            Some(p) => Some(p@),
            None => None,
        },
        f.det,
    )
}

/// Reading the tokens left to right, each field token overrides the earlier ones.
pub open spec fn fields_of(toks: Seq<Seq<char>>) -> (Option<u8>, Option<Seq<char>>, Option<bool>)
    decreases toks.len(),
{
    if toks.len() == 0 {
        (None, None, None)
    } else {
        let (m, p, d) = fields_of(toks.drop_last());
        let t = toks.last();
        if has_prefix(t, seq!['m', 'u', 'l', 'l', '=']) {
            (parse_u8(t.skip(5)), p, d)
        } else if has_prefix(t, seq!['p', 'r', 'e', 'd', '=']) {
            (m, Some(t.skip(5)), d)
        } else if has_prefix(t, seq!['d', 'e', 't', '=']) {
            (
                m,
                p,
                match parse_u8(t.skip(4)) {
                    Some(n) => Some(n != 0),
                    None => None,
                },
            )
        } else {
            (m, p, d)
        }
    }
}

/// A summary line starts with `STATS `.
pub open spec fn is_stats_line(l: Seq<char>) -> bool {
    has_prefix(l, seq!['S', 'T', 'A', 'T', 'S', ' '])
}

/// Parse an unsigned 8-bit number from `cs[from..]` (see [`parse_u8`]).
fn parse_u8_from(cs: &Vec<char>, from: usize) -> (r: Option<u8>)
    requires
        from <= cs@.len(),
    ensures
        r == parse_u8(cs@.skip(from as int)),
{
    let ghost s = cs@.skip(from as int);
    let n = cs.len();
    let start = if from < n && cs[from] == '+' {
        from + 1
    } else {
        from
    };
    let ghost ds = cs@.skip(start as int);
    assert(ds =~= unsigned_digits(s));
    if start == n {
        return None;
    }
    let mut acc: u32 = 0;
    let mut over = false;
    let mut i = start;
    assert(ds.take(0) =~= Seq::<char>::empty());
    while i < n
        invariant
            start <= i <= n,
            n == cs@.len(),
            ds == cs@.skip(start as int),
            s == cs@.skip(from as int),
            ds == unsigned_digits(s),
            forall|k: int| 0 <= k < i - start ==> is_decimal_digit(#[trigger] ds[k]),
            over == (decimal_value(ds.take(i - start)) > 255),
            !over ==> acc == decimal_value(ds.take(i - start)),
        decreases n - i,
    {
        let ch = cs[i];
        assert(ds[i - start] == cs@[i as int]);
        if !('0' <= ch && ch <= '9') {
            assert(!is_decimal_digit(ds[i - start]));
            return None;
        }
        proof {
            assert(ds.take(i - start + 1).drop_last() =~= ds.take(i - start));
            assert(ds[i - start] == ch);
        }
        if !over {
            let v = acc * 10 + ((ch as u32) - ('0' as u32));
            if v > 255 {
                over = true;
            } else {
                acc = v;
            }
        }
        i = i + 1;
    }
    assert(ds.take(n - start) =~= ds);
    if over {
        None
    } else {
        Some(acc as u8)
    }
}

/// The fields after reading one more token.
fn apply_token(fields: FieldScan, tok: &Vec<char>) -> (r: FieldScan)
    ensures
        ({
            let (m, p, d) = fields_view(fields);
            let t = tok@;
            fields_view(r) == (if has_prefix(t, seq!['m', 'u', 'l', 'l', '=']) {
                (parse_u8(t.skip(5)), p, d)
            } else if has_prefix(t, seq!['p', 'r', 'e', 'd', '=']) {
                (m, Some(t.skip(5)), d)
            } else if has_prefix(t, seq!['d', 'e', 't', '=']) {
                (
                    m,
                    p,
                    match parse_u8(t.skip(4)) {
                        Some(n) => Some(n != 0),
                        None => None,
                    },
                )
            } else {
                (m, p, d)
            })
        }),
{
    let n = tok.len();
    if n >= 5 && tok[0] == 'm' && tok[1] == 'u' && tok[2] == 'l' && tok[3] == 'l' && tok[4] == '=' {
        assert(tok@.take(5) =~= seq!['m', 'u', 'l', 'l', '=']);
        FieldScan { mull: parse_u8_from(tok, 5), ..fields }
    } else if n >= 5 && tok[0] == 'p' && tok[1] == 'r' && tok[2] == 'e' && tok[3] == 'd' && tok[4]
        == '=' {
        assert(tok@.take(5) =~= seq!['p', 'r', 'e', 'd', '=']);
        assert(!has_prefix(tok@, seq!['m', 'u', 'l', 'l', '=']));
        let mut text: Vec<char> = Vec::new();
        for k in 5..n
            invariant
                n == tok@.len(),
                5 <= n,
                text@ == tok@.subrange(5, k as int),
        {
            text.push(tok[k]);
            assert(text@ =~= tok@.subrange(5, k + 1));
        }
        assert(text@ =~= tok@.skip(5));
        FieldScan { pred: Some(text), ..fields }
    } else if n >= 4 && tok[0] == 'd' && tok[1] == 'e' && tok[2] == 't' && tok[3] == '=' {
        assert(tok@.take(4) =~= seq!['d', 'e', 't', '=']);
        assert(!has_prefix(tok@, seq!['m', 'u', 'l', 'l', '=']));
        assert(!has_prefix(tok@, seq!['p', 'r', 'e', 'd', '=']));
        let det = match parse_u8_from(tok, 4) {
            Some(v) => Some(v != 0),
            None => None,
        };
        FieldScan { det, ..fields }
    } else {
        proof {
            if has_prefix(tok@, seq!['m', 'u', 'l', 'l', '=']) {
                assert(tok@.take(5)[0] == 'm');
                assert(tok@.take(5)[4] == '=');
            }
            if has_prefix(tok@, seq!['p', 'r', 'e', 'd', '=']) {
                assert(tok@.take(5)[0] == 'p');
                assert(tok@.take(5)[4] == '=');
            }
            if has_prefix(tok@, seq!['d', 'e', 't', '=']) {
                assert(tok@.take(4)[0] == 'd');
                assert(tok@.take(4)[3] == '=');
            }
        }
        fields
    }
}

/// Whether the line starts with `STATS `.
fn starts_stats(line: &str) -> (r: bool)
    ensures
        r == is_stats_line(line@),
{
    let n = line.unicode_len();
    if n < 6 {
        return false;
    }
    let r = line.get_char(0) == 'S' && line.get_char(1) == 'T' && line.get_char(2) == 'A'
        && line.get_char(3) == 'T' && line.get_char(4) == 'S' && line.get_char(5) == ' ';
    proof {
        let p = seq!['S', 'T', 'A', 'T', 'S', ' '];
        if r {
            assert(line@.take(6) =~= p);
        } else if line@.take(6) == p {
            assert(line@.take(6)[0] == line@[0]);
            assert(line@.take(6)[1] == line@[1]);
            assert(line@.take(6)[2] == line@[2]);
            assert(line@.take(6)[3] == line@[3]);
            assert(line@.take(6)[4] == line@[4]);
            assert(line@.take(6)[5] == line@[5]);
        }
    }
    r
}

/// The fields of one line (see [`fields_of`] and [`tokens`]).
fn line_fields(line: &str) -> (r: FieldScan)
    ensures
        fields_view(r) == fields_of(tokens(line@)),
{
    let ghost cs = line@;
    let n = line.unicode_len();
    let mut fields = FieldScan { mull: None, pred: None, det: None };
    let mut cur: Vec<char> = Vec::new();
    assert(cs.take(0) =~= Seq::<char>::empty());
    for i in 0..n
        invariant
            n == cs.len(),
            cs == line@,
            cur@ == token_scan(cs.take(i as int)).1,
            fields_view(fields) == fields_of(token_scan(cs.take(i as int)).0),
    {
        let ch = line.get_char(i);
        let ghost toks = token_scan(cs.take(i as int)).0;
        proof {
            assert(cs.take(i + 1).drop_last() =~= cs.take(i as int));
            assert(cs.take(i + 1).last() == ch);
        }
        if is_white_space(ch) {
            if cur.len() > 0 {
                proof {
                    assert(toks.push(cur@).drop_last() =~= toks);
                }
                fields = apply_token(fields, &cur);
                cur = Vec::new();
                assert(cur@ =~= Seq::<char>::empty());
            }
        } else {
            cur.push(ch);
        }
    }
    proof {
        assert(cs.take(n as int) =~= cs);
    }
    if cur.len() > 0 {
        let ghost toks = token_scan(cs).0;
        proof {
            assert(toks.push(cur@).drop_last() =~= toks);
        }
        fields = apply_token(fields, &cur);
    }
    fields
}

/// The fields of a complete summary line.
#[derive(Clone, Debug, PartialEq, Eq)]
pub struct StatsFields {
    /// Mulligans taken.
    pub mull: u8,
    /// The text of the predicted P(cast by cutoff).
    pub pred: Vec<char>,
    /// The opening hand had a deterministic line.
    pub det: bool,
}

/// The fields of a summary line when all three are present and the numbers parse.
pub open spec fn line_stats(l: Seq<char>) -> Option<(u8, Seq<char>, bool)> {
    match fields_of(tokens(l)) {
        (Some(m), Some(p), Some(d)) => Some((m, p, d)),
        _ => None,
    }
}

/// The summary of a decision log: read from its first line that starts with `STATS `;
/// `None` when there is no such line or that line is incomplete.
pub open spec fn log_stats(log: Seq<Seq<char>>) -> Option<(u8, Seq<char>, bool)>
    decreases log.len(),
{
    if log.len() == 0 {
        None
    } else if is_stats_line(log[0]) {
        line_stats(log[0])
    } else {
        log_stats(log.skip(1))
    }
}

/// Parse the summary line of a decision log (see [`log_stats`]).
pub fn parse_stats_line(log: &Vec<String>) -> (r: Option<StatsFields>)
    ensures
        log_stats(crate::names::names(log@)) == match r {
            Some(f) => Some((f.mull, f.pred@, f.det)),
            None => None,
        },
{
    let ghost v = crate::names::names(log@);
    let n = log.len();
    assert(v.skip(0) =~= v);
    for i in 0..n
        invariant
            n == log@.len(),
            v == crate::names::names(log@),
            log_stats(v) == log_stats(v.skip(i as int)),
    {
        proof {
            assert(v.skip(i as int)[0] == log@[i as int]@);
            assert(v.skip(i as int).skip(1) =~= v.skip(i + 1));
        }
        if starts_stats(log[i].as_str()) {
            let f = line_fields(log[i].as_str());
            return match (f.mull, f.pred, f.det) {
                (Some(mull), Some(pred), Some(det)) => Some(StatsFields { mull, pred, det }),
                _ => None,
            };
        }
    }
    assert(v.skip(n as int) =~= Seq::<Seq<char>>::empty());
    None
}

} // verus!
