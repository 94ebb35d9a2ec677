//! Character classes, scanning helpers, verified decimal formatting, and
//! whitespace trimming used by the free-text parsers and payload builders.

use vstd::prelude::*;

verus! {

/// The Unicode characters with the White_Space property; this is the class
/// that both free-text scanning and trimming treat as blank.
pub open spec fn is_space_char(c: char) -> bool {
    ||| c == ' '
    ||| c == '\t'
    ||| c == '\n'
    ||| c == '\u{b}'
    ||| c == '\u{c}'
    ||| c == '\r'
    ||| c == '\u{85}'
    ||| c == '\u{a0}'
    ||| c == '\u{1680}'
    ||| (0x2000 <= c as u32 && c as u32 <= 0x200a)
    ||| c == '\u{2028}'
    ||| c == '\u{2029}'
    ||| c == '\u{202f}'
    ||| c == '\u{205f}'
    ||| c == '\u{3000}'
}

pub open spec fn is_digit_char(c: char) -> bool {
    48 <= c as u32 && c as u32 <= 57
}

pub open spec fn digit_val(c: char) -> u8 {
    (c as u32 - 48) as u8
}

pub fn space_char(c: char) -> (r: bool)
    ensures
        r == is_space_char(c),
{
    let u = c as u32;
    c == ' ' || c == '\t' || c == '\n' || c == '\u{b}' || c == '\u{c}' || c == '\r'
        || c == '\u{85}' || c == '\u{a0}' || c == '\u{1680}' || (0x2000 <= u && u <= 0x200a)
        || c == '\u{2028}' || c == '\u{2029}' || c == '\u{202f}' || c == '\u{205f}'
        || c == '\u{3000}'
}

pub fn digit_char(c: char) -> (r: bool)
    ensures
        r == is_digit_char(c),
{
    let u = c as u32;
    48 <= u && u <= 57
}

/// The first position at or after `i` that is not a blank character (or the
/// end of the text).
pub open spec fn space_run_end(s: Seq<char>, i: int) -> int
    decreases s.len() - i,
{
    if i < 0 || i >= s.len() || !is_space_char(s[i]) {
        i
    } else {
        space_run_end(s, i + 1)
    }
}

/// The first position at or after `i` that is not a decimal digit (or the
/// end of the text).
pub open spec fn digit_run_end(s: Seq<char>, i: int) -> int
    decreases s.len() - i,
{
    if i < 0 || i >= s.len() || !is_digit_char(s[i]) {
        i
    } else {
        digit_run_end(s, i + 1)
    }
}

pub proof fn lemma_space_run_end(s: Seq<char>, i: int)
    requires
        0 <= i <= s.len(),
    ensures
        i <= space_run_end(s, i) <= s.len(),
        forall|j: int| i <= j < space_run_end(s, i) ==> is_space_char(s[j]),
        space_run_end(s, i) < s.len() ==> !is_space_char(s[space_run_end(s, i)]),
    decreases s.len() - i,
{
    if i < s.len() && is_space_char(s[i]) {
        lemma_space_run_end(s, i + 1);
    }
}

pub proof fn lemma_digit_run_end(s: Seq<char>, i: int)
    requires
        0 <= i <= s.len(),
    ensures
        i <= digit_run_end(s, i) <= s.len(),
        forall|j: int| i <= j < digit_run_end(s, i) ==> is_digit_char(s[j]),
        digit_run_end(s, i) < s.len() ==> !is_digit_char(s[digit_run_end(s, i)]),
    decreases s.len() - i,
{
    if i < s.len() && is_digit_char(s[i]) {
        lemma_digit_run_end(s, i + 1);
    }
}

/// Scan past blank characters starting at `from`.
pub fn scan_spaces(s: &str, n: usize, from: usize) -> (j: usize)
    requires
        n == s@.len(),
        from <= n,
    ensures
        j == space_run_end(s@, from as int),
        from <= j <= n,
{
    let mut j: usize = from;
    while j < n && space_char(s.get_char(j))
        invariant
            from <= j <= n,
            n == s@.len(),
            space_run_end(s@, from as int) == space_run_end(s@, j as int),
        decreases n - j,
    {
        j = j + 1;
    }
    j
}

/// Scan past decimal digits starting at `from`.
pub fn scan_digits(s: &str, n: usize, from: usize) -> (j: usize)
    requires
        n == s@.len(),
        from <= n,
    ensures
        j == digit_run_end(s@, from as int),
        from <= j <= n,
{
    let mut j: usize = from;
    while j < n && digit_char(s.get_char(j))
        invariant
            from <= j <= n,
            n == s@.len(),
            digit_run_end(s@, from as int) == digit_run_end(s@, j as int),
        decreases n - j,
    {
        j = j + 1;
    }
    j
}

/// Position just past the last non-blank character of `s` (0 when every
/// character is blank).
pub open spec fn trim_end_pos(s: Seq<char>) -> int
    decreases s.len(),
{
    if s.len() == 0 {
        0
    } else if is_space_char(s.last()) {
        trim_end_pos(s.drop_last())
    } else {
        s.len() as int
    }
}

/// `s` with leading and trailing blank characters removed, as `str::trim`
/// leaves it.
pub open spec fn trim_spec(s: Seq<char>) -> Seq<char> {
    let a = space_run_end(s, 0);
    let e = trim_end_pos(s);
    if a >= e {
        Seq::empty()
    } else {
        s.subrange(a, e)
    }
}

proof fn lemma_trim_end_pos(s: Seq<char>)
    ensures
        0 <= trim_end_pos(s) <= s.len(),
        trim_end_pos(s) > 0 ==> !is_space_char(s[trim_end_pos(s) - 1]),
        forall|j: int| trim_end_pos(s) <= j < s.len() ==> is_space_char(s[j]),
    decreases s.len(),
{
    if s.len() > 0 && is_space_char(s.last()) {
        lemma_trim_end_pos(s.drop_last());
        assert forall|j: int| trim_end_pos(s) <= j < s.len() implies is_space_char(s[j]) by {
            if j < s.len() - 1 {
                assert(s.drop_last()[j] == s[j]);
            }
        }
    }
}

proof fn lemma_trim_end_all_spaces(s: Seq<char>)
    requires
        forall|j: int| 0 <= j < s.len() ==> is_space_char(s[j]),
    ensures
        trim_end_pos(s) == 0,
    decreases s.len(),
{
    if s.len() > 0 {
        assert(forall|j: int| 0 <= j < s.drop_last().len() ==> s.drop_last()[j] == s[j]);
        lemma_trim_end_all_spaces(s.drop_last());
    }
}

/// Remove leading and trailing blank characters.
pub fn trim_str(s: &str) -> (r: String)
    ensures
        r@ == trim_spec(s@),
{
    let n = s.unicode_len();
    let a = scan_spaces(s, n, 0);
    proof {
        lemma_space_run_end(s@, 0);
    }
    let mut e: usize = n;
    proof {
        assert(s@.subrange(0, n as int) =~= s@);
    }
    while e > a && space_char(s.get_char(e - 1))
        invariant
            a <= e <= n,
            n == s@.len(),
            a == space_run_end(s@, 0),
            trim_end_pos(s@) == trim_end_pos(s@.subrange(0, e as int)),
        decreases e,
    {
        proof {
            assert(s@.subrange(0, e as int).drop_last() =~= s@.subrange(0, e as int - 1));
        }
        e = e - 1;
    }
    proof {
        lemma_space_run_end(s@, 0);
        if e == a {
            assert(forall|j: int| 0 <= j < a ==> is_space_char(s@[j]));
            assert(forall|j: int|
                0 <= j < s@.subrange(0, e as int).len() ==> is_space_char(
                    s@.subrange(0, e as int)[j],
                ));
            lemma_trim_end_all_spaces(s@.subrange(0, e as int));
            assert(trim_end_pos(s@) == 0);
            assert(trim_spec(s@) =~= s@.subrange(a as int, e as int));
        } else {
            assert(!is_space_char(s@[e - 1]));
            assert(s@.subrange(0, e as int).last() == s@[e - 1]);
            assert(trim_end_pos(s@.subrange(0, e as int)) == e as int);
            assert(trim_spec(s@) =~= s@.subrange(a as int, e as int));
        }
    }
    let t = s.substring_char(a, e);
    String::from_str(t)
}

pub open spec fn dec_digit_to_char(d: nat) -> char {
    if d == 0 {
        '0'
    } else if d == 1 {
        '1'
    } else if d == 2 {
        '2'
    } else if d == 3 {
        '3'
    } else if d == 4 {
        '4'
    } else if d == 5 {
        '5'
    } else if d == 6 {
        '6'
    } else if d == 7 {
        '7'
    } else if d == 8 {
        '8'
    } else {
        '9'
    }
}

/// The usual decimal numeral of `n`, most significant digit first.
pub open spec fn dec_str(n: nat) -> Seq<char>
    decreases n,
{
    if n < 10 {
        seq![dec_digit_to_char(n)]
    } else {
        dec_str(n / 10) + seq![dec_digit_to_char(n % 10)]
    }
}

fn dec_digit_char_of(d: u64) -> (c: char)
    requires
        d < 10,
    ensures
        c == dec_digit_to_char(d as nat),
{
    if d == 0 {
        '0'
    } else if d == 1 {
        '1'
    } else if d == 2 {
        '2'
    } else if d == 3 {
        '3'
    } else if d == 4 {
        '4'
    } else if d == 5 {
        '5'
    } else if d == 6 {
        '6'
    } else if d == 7 {
        '7'
    } else if d == 8 {
        '8'
    } else {
        '9'
    }
}

/// Render `n` as its decimal numeral.
pub fn u64_to_string(n: u64) -> (r: String)
    ensures
        r@ == dec_str(n as nat),
    decreases n,
{
    if n < 10 {
        let mut s = String::new();
        push_char(&mut s, dec_digit_char_of(n));
        assert(s@ =~= dec_str(n as nat));
        s
    } else {
        let mut s = u64_to_string(n / 10);
        push_char(&mut s, dec_digit_char_of(n % 10));
        assert(s@ =~= dec_str(n as nat));
        s
    }
}

/// Relies on `String::push`: appends exactly one character at the end.
#[verifier::external_body]
pub fn push_char(s: &mut String, c: char)
    ensures
        final(s)@ == old(s)@ + seq![c],
{
    s.push(c);
}

/// A name for what `str::to_lowercase` returns; the result depends on the
/// characters of the input alone.
pub uninterp spec fn lower_of(s: Seq<char>) -> Seq<char>;

/// Relies on `str::to_lowercase`: the lowercase equivalent of the text,
/// determined by its characters alone.
#[verifier::external_body]
pub fn to_lowercase_str(s: &str) -> (r: String)
    ensures
        r@ == lower_of(s@),
{
    s.to_lowercase()
}

} // verus!
