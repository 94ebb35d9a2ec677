//! Parse a coordinate out of the vision model's free-text answer.
//!
//! Two independent strategies are applied to the whole content, in a fixed
//! order of preference: the attribute strategy matches `x…="<num>" y…="<num>"`
//! style markup (numeric suffixes on the attribute names are tolerated); the
//! pair strategy matches a bare or parenthesized numeric pair `(a, b)` /
//! `a, b`. Each scan walks the text left to right, takes the match starting
//! earliest, and continues after its end, as a leftmost non-overlapping
//! regular-expression scan would. For both patterns, greedy matching with
//! no backtracking decides each attempt: wherever a quantifier could give
//! characters back, the character that follows can never satisfy the next
//! piece of the pattern, so the greedy reading is the only one.
//! A candidate is kept only when both
//! components lie in [0, 100]; the first valid attribute candidate wins, then
//! the first valid pair candidate. No candidate at all is the transient
//! `FailedToParseCoordinates` error carrying the raw content.

use vstd::prelude::*;
use vstd::seq_lib::*;
use crate::strutil::is_digit_char;
use crate::strutil::digit_val;
use crate::strutil::space_run_end;
use crate::strutil::digit_run_end;
use crate::strutil::lemma_digit_run_end;
use crate::strutil::scan_spaces;
use crate::strutil::scan_digits;
use crate::strutil::digit_char;
use crate::digits::digits_ok;
use crate::digits::within_hundred;
use crate::decimal::Decimal;
use crate::errors::DaemonError;

verus! {

// ---------------------------------------------------------------- numerals

/// Whether the numeral starting at `i` carries a fraction part: its integer
/// digits are followed by a dot and at least one more digit.
pub open spec fn has_fraction(s: Seq<char>, i: int) -> bool {
    let j = digit_run_end(s, i);
    j < s.len() && s[j] == '.' && j + 1 < s.len() && is_digit_char(s[j + 1])
}

/// End position of the numeral `[0-9]+(\.[0-9]+)?` starting at `i`.
pub open spec fn numeral_end(s: Seq<char>, i: int) -> int {
    if has_fraction(s, i) {
        digit_run_end(s, digit_run_end(s, i) + 1)
    } else {
        digit_run_end(s, i)
    }
}

/// The digit values of the characters in `[a, b)`.
pub open spec fn digits_of(s: Seq<char>, a: int, b: int) -> Seq<u8> {
    s.subrange(a, b).map_values(|c: char| digit_val(c))
}

/// All digits of the numeral starting at `i`, the dot dropped.
pub open spec fn numeral_digits(s: Seq<char>, i: int) -> Seq<u8> {
    if has_fraction(s, i) {
        digits_of(s, i, digit_run_end(s, i)) + digits_of(
            s,
            digit_run_end(s, i) + 1,
            numeral_end(s, i),
        )
    } else {
        digits_of(s, i, digit_run_end(s, i))
    }
}

/// How many digits of the numeral starting at `i` lie after the dot.
pub open spec fn numeral_scale(s: Seq<char>, i: int) -> nat {
    if has_fraction(s, i) {
        (numeral_end(s, i) - (digit_run_end(s, i) + 1)) as nat
    } else {
        0
    }
}

fn digit_value(c: char) -> (d: u8)
    requires
        is_digit_char(c),
    ensures
        d == digit_val(c),
        d < 10,
{
    ((c as u32) - 48) as u8
}

/// Append the digit values of the digit run starting at `from` to `out` and
/// return the run's end.
fn collect_digits(s: &str, n: usize, from: usize, out: &mut Vec<u8>) -> (j: usize)
    requires
        n == s@.len(),
        from <= n,
    ensures
        j == digit_run_end(s@, from as int),
        from <= j <= n,
        final(out)@ == old(out)@ + digits_of(s@, from as int, j as int),
    decreases n - from,
{
    let mut j: usize = from;
    proof {
        assert(s@.subrange(from as int, from as int) =~= Seq::<char>::empty());
        assert(digits_of(s@, from as int, from as int) =~= Seq::<u8>::empty());
        assert(out@ =~= out@ + digits_of(s@, from as int, from as int));
    }
    while j < n && digit_char(s.get_char(j))
        invariant
            from <= j <= n,
            n == s@.len(),
            digit_run_end(s@, from as int) == digit_run_end(s@, j as int),
            out@ == old(out)@ + digits_of(s@, from as int, j as int),
            forall|k: int| from <= k < j ==> is_digit_char(s@[k]),
        decreases n - j,
    {
        let c = s.get_char(j);
        let d = digit_value(c);
        out.push(d);
        proof {
            assert(s@.subrange(from as int, j + 1) =~= s@.subrange(from as int, j as int).push(
                s@[j as int],
            ));
            assert(digits_of(s@, from as int, j + 1) =~= digits_of(s@, from as int, j as int).push(
                digit_val(s@[j as int]),
            ));
        }
        j = j + 1;
    }
    j
}

/// Scan the numeral starting at `from`: its digits, its fraction digit
/// count, and its end position.
fn scan_numeral(s: &str, n: usize, from: usize) -> (r: (Vec<u8>, usize, usize))
    requires
        n == s@.len(),
        from < n,
        is_digit_char(s@[from as int]),
    ensures
        r.0@ == numeral_digits(s@, from as int),
        r.1 as nat == numeral_scale(s@, from as int),
        r.2 == numeral_end(s@, from as int),
        from < r.2 <= n,
        digits_ok(r.0@),
        r.1 < r.0@.len(),
        r.1 + 2 <= usize::MAX,
{
    let mut digits: Vec<u8> = Vec::new();
    let j = collect_digits(s, n, from, &mut digits);
    proof {
        lemma_digit_run_end(s@, from as int);
        assert(j > from);
        assert(Seq::<u8>::empty() + digits_of(s@, from as int, j as int) =~= digits_of(
            s@,
            from as int,
            j as int,
        ));
        assert(digits@.len() == j - from);
        assert forall|k: int| 0 <= k < digits@.len() implies digits@[k] < 10 by {
            assert(digits@[k] == digit_val(s@[from + k]));
            assert(is_digit_char(s@[from + k]));
        }
    }
    let is_frac = j < n && s.get_char(j) == '.' && j + 1 < n && digit_char(s.get_char(j + 1));
    proof {
        assert(is_frac == has_fraction(s@, from as int));
    }
    if is_frac {
        let ghost before = digits@;
        let e2 = collect_digits(s, n, j + 1, &mut digits);
        proof {
            lemma_digit_run_end(s@, j + 1);
            assert(e2 > j + 1);
            assert(digits@.len() == (j - from) + (e2 - (j + 1)));
            assert forall|k: int| 0 <= k < digits@.len() implies digits@[k] < 10 by {
                if k < before.len() {
                    assert(digits@[k] == before[k]);
                    assert(before[k] == digit_val(s@[from + k]));
                    assert(is_digit_char(s@[from + k]));
                } else {
                    assert(digits@[k] == digits_of(s@, j + 1, e2 as int)[k - before.len()]);
                    assert(digits@[k] == digit_val(s@[j + 1 + (k - before.len())]));
                    assert(is_digit_char(s@[j + 1 + (k - before.len())]));
                }
            }
        }
        let scale = e2 - (j + 1);
        (digits, scale, e2)
    } else {
        (digits, 0, j)
    }
}

// ------------------------------------------------------- attribute strategy

/// Attempt the attribute pattern at position `i`:
/// `x[0-9]*="\s*<num>"\s+y[0-9]*="\s*<num>`. On success the result carries
/// the start of the x numeral, the start of the y numeral, and the end of
/// the match (the end of the y numeral).
pub open spec fn attr_match_at(s: Seq<char>, i: int) -> Option<(int, int, int)> {
    if !(0 <= i < s.len() && s[i] == 'x') {
        None
    } else {
        let a = digit_run_end(s, i + 1);
        if !(a + 1 < s.len() && s[a] == '=' && s[a + 1] == '"') {
            None
        } else {
            let b = space_run_end(s, a + 2);
            if !(b < s.len() && is_digit_char(s[b])) {
                None
            } else {
                let c = numeral_end(s, b);
                if !(c < s.len() && s[c] == '"') {
                    None
                } else {
                    let d = space_run_end(s, c + 1);
                    if !(d > c + 1 && d < s.len() && s[d] == 'y') {
                        None
                    } else {
                        let e = digit_run_end(s, d + 1);
                        if !(e + 1 < s.len() && s[e] == '=' && s[e + 1] == '"') {
                            None
                        } else {
                            let f = space_run_end(s, e + 2);
                            if !(f < s.len() && is_digit_char(s[f])) {
                                None
                            } else {
                                Some((b, f, numeral_end(s, f)))
                            }
                        }
                    }
                }
            }
        }
    }
}

/// Attempt the attribute pattern at `i` in executable code.
fn attr_try_at(s: &str, n: usize, i: usize) -> (r: Option<(Decimal, Decimal, usize)>)
    requires
        n == s@.len(),
        i < n,
    ensures
        (r is None) == (attr_match_at(s@, i as int) is None),
        attr_match_at(s@, i as int) matches Some(t) ==> (r matches Some(m) && {
            &&& m.0.digits@ == numeral_digits(s@, t.0)
            &&& m.0.scale as nat == numeral_scale(s@, t.0)
            &&& m.1.digits@ == numeral_digits(s@, t.1)
            &&& m.1.scale as nat == numeral_scale(s@, t.1)
            &&& m.0.wf()
            &&& m.1.wf()
            &&& m.2 == t.2
            &&& i < m.2 <= n
        }),
{
    if !(s.get_char(i) == 'x') {
        return None;
    }
    let a = scan_digits(s, n, i + 1);
    if !(a < n) {
        return None;
    }
    if !(a + 1 < n && s.get_char(a) == '=' && s.get_char(a + 1) == '"') {
        return None;
    }
    let b = scan_spaces(s, n, a + 2);
    if !(b < n && digit_char(s.get_char(b))) {
        return None;
    }
    let (xd, xs, c) = scan_numeral(s, n, b);
    if !(c < n && s.get_char(c) == '"') {
        return None;
    }
    let d = scan_spaces(s, n, c + 1);
    if !(d > c + 1 && d < n && s.get_char(d) == 'y') {
        return None;
    }
    let e = scan_digits(s, n, d + 1);
    if !(e < n) {
        return None;
    }
    if !(e + 1 < n && s.get_char(e) == '=' && s.get_char(e + 1) == '"') {
        return None;
    }
    let f = scan_spaces(s, n, e + 2);
    if !(f < n && digit_char(s.get_char(f))) {
        return None;
    }
    let (yd, ys, g) = scan_numeral(s, n, f);
    let x = Decimal { digits: xd, scale: xs };
    let y = Decimal { digits: yd, scale: ys };
    Some((x, y, g))
}

// ------------------------------------------------------------ pair strategy

/// Attempt the pair pattern at position `i`:
/// `\(?\s*<num>\s*,\s*<num>\s*\)?`. On success the result carries the start
/// of each numeral and the end of the match (past a closing parenthesis and
/// the blanks before it, when present).
pub open spec fn pair_match_at(s: Seq<char>, i: int) -> Option<(int, int, int)> {
    if !(0 <= i < s.len()) {
        None
    } else {
        let a = if s[i] == '(' {
            i + 1
        } else {
            i
        };
        let b = space_run_end(s, a);
        if !(b < s.len() && is_digit_char(s[b])) {
            None
        } else {
            let c = numeral_end(s, b);
            let d = space_run_end(s, c);
            if !(d < s.len() && s[d] == ',') {
                None
            } else {
                let e = space_run_end(s, d + 1);
                if !(e < s.len() && is_digit_char(s[e])) {
                    None
                } else {
                    let f = numeral_end(s, e);
                    let g = space_run_end(s, f);
                    let close = g < s.len() && s[g] == ')';
                    Some((b, e, if close { g + 1 } else { g }))
                }
            }
        }
    }
}

/// Attempt the pair pattern at `i` in executable code.
fn pair_try_at(s: &str, n: usize, i: usize) -> (r: Option<(Decimal, Decimal, usize)>)
    requires
        n == s@.len(),
        i < n,
    ensures
        (r is None) == (pair_match_at(s@, i as int) is None),
        pair_match_at(s@, i as int) matches Some(t) ==> (r matches Some(m) && {
            &&& m.0.digits@ == numeral_digits(s@, t.0)
            &&& m.0.scale as nat == numeral_scale(s@, t.0)
            &&& m.1.digits@ == numeral_digits(s@, t.1)
            &&& m.1.scale as nat == numeral_scale(s@, t.1)
            &&& m.0.wf()
            &&& m.1.wf()
            &&& m.2 == t.2
            &&& i < m.2 <= n
        }),
{
    let a = if s.get_char(i) == '(' {
        i + 1
    } else {
        i
    };
    let b = scan_spaces(s, n, a);
    if !(b < n && digit_char(s.get_char(b))) {
        return None;
    }
    let (xd, xs, c) = scan_numeral(s, n, b);
    let d = scan_spaces(s, n, c);
    if !(d < n && s.get_char(d) == ',') {
        return None;
    }
    let e = scan_spaces(s, n, d + 1);
    if !(e < n && digit_char(s.get_char(e))) {
        return None;
    }
    let (yd, ys, f) = scan_numeral(s, n, e);
    let g = scan_spaces(s, n, f);
    let end = if g < n && s.get_char(g) == ')' {
        g + 1
    } else {
        g
    };
    let x = Decimal { digits: xd, scale: xs };
    let y = Decimal { digits: yd, scale: ys };
    Some((x, y, end))
}

// ------------------------------------------------------------- candidates

/// One candidate point as the specification sees it: the digits and scale
/// of each numeral.
pub struct SpecPoint {
    pub x_digits: Seq<u8>,
    pub x_scale: nat,
    pub y_digits: Seq<u8>,
    pub y_scale: nat,
}

pub open spec fn point_at(s: Seq<char>, bx: int, by: int) -> SpecPoint {
    SpecPoint {
        x_digits: numeral_digits(s, bx),
        x_scale: numeral_scale(s, bx),
        y_digits: numeral_digits(s, by),
        y_scale: numeral_scale(s, by),
    }
}

/// Both components in [0, 100].
pub open spec fn valid_point(p: SpecPoint) -> bool {
    within_hundred(p.x_digits, p.x_scale) && within_hundred(p.y_digits, p.y_scale)
}

/// The in-range candidates of a candidate list, in order.
pub open spec fn valid_points(cs: Seq<SpecPoint>) -> Seq<SpecPoint> {
    cs.filter(|p: SpecPoint| valid_point(p))
}

/// The position the attribute scan continues from after trying position `i`.
pub open spec fn attr_next(s: Seq<char>, i: int) -> int {
    match attr_match_at(s, i) {
        Some(t) => if i < t.2 <= s.len() {
            t.2
        } else {
            i + 1
        },
        None => i + 1,
    }
}

/// Every candidate of the attribute scan from position `i` on, in the order
/// a leftmost non-overlapping scan finds them.
pub open spec fn attr_candidates(s: Seq<char>, i: int) -> Seq<SpecPoint>
    decreases s.len() - i,
{
    if !(0 <= i < s.len()) {
        Seq::empty()
    } else {
        match attr_match_at(s, i) {
            Some(t) => seq![point_at(s, t.0, t.1)] + attr_candidates(s, attr_next(s, i)),
            None => attr_candidates(s, i + 1),
        }
    }
}

/// The position the pair scan continues from after trying position `i`.
pub open spec fn pair_next(s: Seq<char>, i: int) -> int {
    match pair_match_at(s, i) {
        Some(t) => if i < t.2 <= s.len() {
            t.2
        } else {
            i + 1
        },
        None => i + 1,
    }
}

/// Every candidate of the pair scan from position `i` on, in scan order.
pub open spec fn pair_candidates(s: Seq<char>, i: int) -> Seq<SpecPoint>
    decreases s.len() - i,
{
    if !(0 <= i < s.len()) {
        Seq::empty()
    } else {
        match pair_match_at(s, i) {
            Some(t) => seq![point_at(s, t.0, t.1)] + pair_candidates(s, pair_next(s, i)),
            None => pair_candidates(s, i + 1),
        }
    }
}

/// The view of an executable candidate pair.
pub open spec fn point_view(p: (Decimal, Decimal)) -> SpecPoint {
    SpecPoint {
        x_digits: p.0.digits@,
        x_scale: p.0.scale as nat,
        y_digits: p.1.digits@,
        y_scale: p.1.scale as nat,
    }
}

/// All valid candidates of the whole content, attribute strategy first.
pub open spec fn coordinate_candidates(s: Seq<char>) -> Seq<SpecPoint> {
    valid_points(attr_candidates(s, 0)) + valid_points(pair_candidates(s, 0))
}

/// Find the first in-range candidate of the attribute scan.
fn first_attr_candidate(s: &str, n: usize) -> (r: Option<(Decimal, Decimal)>)
    requires
        n == s@.len(),
    ensures
        (r is None) == (valid_points(attr_candidates(s@, 0)).len() == 0),
        r matches Some(p) ==> ({
            &&& valid_points(attr_candidates(s@, 0)).len() > 0
            &&& point_view(p) == valid_points(attr_candidates(s@, 0))[0]
            &&& p.0.wf()
            &&& p.1.wf()
            &&& p.0.le_hundred_spec()
            &&& p.1.le_hundred_spec()
        }),
{
    let mut i: usize = 0;
    while i < n
        invariant
            0 <= i <= n,
            n == s@.len(),
            valid_points(attr_candidates(s@, 0)) == valid_points(attr_candidates(s@, i as int)),
        decreases n - i,
    {
        let step = attr_try_at(s, n, i);
        match step {
            Some((x, y, end)) => {
                let ghost t = attr_match_at(s@, i as int)->Some_0;
                let ghost pt = point_at(s@, t.0, t.1);
                proof {
                    assert(attr_next(s@, i as int) == end);
                    assert(attr_candidates(s@, i as int) == seq![pt] + attr_candidates(
                        s@,
                        end as int,
                    ));
                    reveal_with_fuel(Seq::filter, 2);
                    Seq::filter_distributes_over_add(
                        seq![pt],
                        attr_candidates(s@, end as int),
                        |p: SpecPoint| valid_point(p),
                    );
                    assert(seq![pt].drop_last() =~= Seq::<SpecPoint>::empty());
                }
                let ok_x = x.is_at_most_hundred();
                let ok_y = y.is_at_most_hundred();
                if ok_x && ok_y {
                    proof {
                        assert(valid_point(pt));
                        assert(seq![pt].filter(|p: SpecPoint| valid_point(p)) =~= seq![pt]);
                        assert(valid_points(attr_candidates(s@, i as int))[0] == pt);
                        assert(point_view((x, y)) == pt);
                    }
                    return Some((x, y));
                }
                proof {
                    assert(!valid_point(pt));
                    assert(seq![pt].filter(|p: SpecPoint| valid_point(p)) =~= Seq::<
                        SpecPoint,
                    >::empty());
                    assert(valid_points(attr_candidates(s@, i as int)) =~= valid_points(
                        attr_candidates(s@, end as int),
                    ));
                }
                i = end;
            },
            None => {
                proof {
                    assert(attr_candidates(s@, i as int) == attr_candidates(s@, i + 1));
                }
                i = i + 1;
            },
        }
    }
    proof {
        assert(attr_candidates(s@, n as int) =~= Seq::<SpecPoint>::empty());
        reveal_with_fuel(Seq::filter, 1);
        assert(valid_points(attr_candidates(s@, n as int)).len() == 0);
    }
    None
}

/// Find the first in-range candidate of the pair scan.
fn first_pair_candidate(s: &str, n: usize) -> (r: Option<(Decimal, Decimal)>)
    requires
        n == s@.len(),
    ensures
        (r is None) == (valid_points(pair_candidates(s@, 0)).len() == 0),
        r matches Some(p) ==> ({
            &&& valid_points(pair_candidates(s@, 0)).len() > 0
            &&& point_view(p) == valid_points(pair_candidates(s@, 0))[0]
            &&& p.0.wf()
            &&& p.1.wf()
            &&& p.0.le_hundred_spec()
            &&& p.1.le_hundred_spec()
        }),
{
    let mut i: usize = 0;
    while i < n
        invariant
            0 <= i <= n,
            n == s@.len(),
            valid_points(pair_candidates(s@, 0)) == valid_points(pair_candidates(s@, i as int)),
        decreases n - i,
    {
        let step = pair_try_at(s, n, i);
        match step {
            Some((x, y, end)) => {
                let ghost t = pair_match_at(s@, i as int)->Some_0;
                let ghost pt = point_at(s@, t.0, t.1);
                proof {
                    assert(pair_next(s@, i as int) == end);
                    assert(pair_candidates(s@, i as int) == seq![pt] + pair_candidates(
                        s@,
                        end as int,
                    ));
                    reveal_with_fuel(Seq::filter, 2);
                    Seq::filter_distributes_over_add(
                        seq![pt],
                        pair_candidates(s@, end as int),
                        |p: SpecPoint| valid_point(p),
                    );
                    assert(seq![pt].drop_last() =~= Seq::<SpecPoint>::empty());
                }
                let ok_x = x.is_at_most_hundred();
                let ok_y = y.is_at_most_hundred();
                if ok_x && ok_y {
                    proof {
                        assert(valid_point(pt));
                        assert(seq![pt].filter(|p: SpecPoint| valid_point(p)) =~= seq![pt]);
                        assert(valid_points(pair_candidates(s@, i as int))[0] == pt);
                        assert(point_view((x, y)) == pt);
                    }
                    return Some((x, y));
                }
                proof {
                    assert(!valid_point(pt));
                    assert(seq![pt].filter(|p: SpecPoint| valid_point(p)) =~= Seq::<
                        SpecPoint,
                    >::empty());
                    assert(valid_points(pair_candidates(s@, i as int)) =~= valid_points(
                        pair_candidates(s@, end as int),
                    ));
                }
                i = end;
            },
            None => {
                proof {
                    assert(pair_candidates(s@, i as int) == pair_candidates(s@, i + 1));
                }
                i = i + 1;
            },
        }
    }
    proof {
        assert(pair_candidates(s@, n as int) =~= Seq::<SpecPoint>::empty());
        reveal_with_fuel(Seq::filter, 1);
        assert(valid_points(pair_candidates(s@, n as int)).len() == 0);
    }
    None
}

/// Every candidate the parser can ever hand on lies in range: a candidate
/// with either component above 100 is excluded, however well-formed its
/// markup was.
pub proof fn lemma_candidates_in_range(s: Seq<char>)
    ensures
        forall|k: int|
            0 <= k < coordinate_candidates(s).len() ==> valid_point(
                #[trigger] coordinate_candidates(s)[k],
            ),
{
    let va = valid_points(attr_candidates(s, 0));
    let vp = valid_points(pair_candidates(s, 0));
    assert forall|k: int|
        0 <= k < coordinate_candidates(s).len() implies valid_point(
        #[trigger] coordinate_candidates(s)[k],
    ) by {
        if k < va.len() {
            attr_candidates(s, 0).lemma_filter_pred(|p: SpecPoint| valid_point(p), k);
        } else {
            pair_candidates(s, 0).lemma_filter_pred(|p: SpecPoint| valid_point(p), k - va.len());
        }
    }
}

/// The first in-range candidate of the whole content, attribute strategy
/// first; no candidate at all is the transient parse failure carrying the
/// raw content.
pub fn first_coordinate(content: &str) -> (r: Result<(Decimal, Decimal), DaemonError>)
    ensures
        (r is Err) == (coordinate_candidates(content@).len() == 0),
        r matches Err(e) ==> (e matches DaemonError::FailedToParseCoordinates(raw) && raw@
            == content@),
        r matches Ok(p) ==> ({
            &&& coordinate_candidates(content@).len() > 0
            &&& point_view(p) == coordinate_candidates(content@)[0]
            &&& p.0.wf()
            &&& p.1.wf()
            &&& p.0.le_hundred_spec()
            &&& p.1.le_hundred_spec()
        }),
{
    let n = content.unicode_len();
    let from_attr = first_attr_candidate(content, n);
    match from_attr {
        Some(p) => {
            proof {
                assert(coordinate_candidates(content@)[0] == valid_points(
                    attr_candidates(content@, 0),
                )[0]);
            }
            Ok(p)
        },
        None => {
            let from_pair = first_pair_candidate(content, n);
            match from_pair {
                Some(p) => {
                    proof {
                        assert(valid_points(attr_candidates(content@, 0)).len() == 0);
                        assert(coordinate_candidates(content@) =~= valid_points(
                            pair_candidates(content@, 0),
                        ));
                    }
                    Ok(p)
                },
                None => Err(DaemonError::FailedToParseCoordinates(String::from_str(content))),
            }
        },
    }
}

} // verus!
