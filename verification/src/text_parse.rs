//! Parse the visible-text enumeration out of the vision model's free-text
//! answer: every double-quoted fragment, in source order, a stray trailing
//! escape character trimmed from each. A quote pair never spans a line
//! break. Zero fragments is the transient `FailedToParseExistence` error.

use vstd::prelude::*;
use crate::errors::DaemonError;

verus! {

/// The first position at or after `i` holding a double quote or a line
/// break (or the end of the text).
pub open spec fn quote_scan_end(s: Seq<char>, i: int) -> int
    decreases s.len() - i,
{
    if i < 0 || i >= s.len() || s[i] == '"' || s[i] == '\n' {
        i
    } else {
        quote_scan_end(s, i + 1)
    }
}

pub proof fn lemma_quote_scan_end(s: Seq<char>, i: int)
    requires
        0 <= i <= s.len(),
    ensures
        i <= quote_scan_end(s, i) <= s.len(),
        forall|k: int|
            i <= k < quote_scan_end(s, i) ==> (s[k] != '"' && s[k] != '\n'),
        quote_scan_end(s, i) < s.len() ==> (s[quote_scan_end(s, i)] == '"' || s[quote_scan_end(
            s,
            i,
        )] == '\n'),
    decreases s.len() - i,
{
    if i < s.len() && s[i] != '"' && s[i] != '\n' {
        lemma_quote_scan_end(s, i + 1);
    }
}

/// A quoted fragment starting at `i`: `i` holds a quote and the next quote
/// or line break, strictly after `i`, is a quote. The result is that
/// closing quote's position.
pub open spec fn quoted_match_at(s: Seq<char>, i: int) -> Option<int> {
    if 0 <= i < s.len() && s[i] == '"' {
        let j = quote_scan_end(s, i + 1);
        if j < s.len() && s[j] == '"' {
            Some(j)
        } else {
            None
        }
    } else {
        None
    }
}

/// `t` with every trailing backslash removed.
pub open spec fn trim_trailing_backslashes(t: Seq<char>) -> Seq<char>
    decreases t.len(),
{
    if t.len() > 0 && t.last() == '\\' {
        trim_trailing_backslashes(t.drop_last())
    } else {
        t
    }
}

/// The position the scan continues from after trying position `i`.
pub open spec fn quoted_next(s: Seq<char>, i: int) -> int {
    match quoted_match_at(s, i) {
        Some(j) => if i < j + 1 <= s.len() {
            j + 1
        } else {
            i + 1
        },
        None => i + 1,
    }
}

/// Every quoted fragment from position `i` on, in source order, each with
/// its trailing backslashes trimmed.
pub open spec fn quoted_texts(s: Seq<char>, i: int) -> Seq<Seq<char>>
    decreases s.len() - i,
{
    if !(0 <= i < s.len()) {
        Seq::empty()
    } else {
        match quoted_match_at(s, i) {
            Some(j) => seq![trim_trailing_backslashes(s.subrange(i + 1, j))] + quoted_texts(
                s,
                quoted_next(s, i),
            ),
            None => quoted_texts(s, i + 1),
        }
    }
}

fn quote_or_line_break(c: char) -> (r: bool)
    ensures
        r == (c == '"' || c == '\n'),
{
    c == '"' || c == '\n'
}

/// Scan to the next quote or line break starting at `from`.
fn scan_to_quote(s: &str, n: usize, from: usize) -> (j: usize)
    requires
        n == s@.len(),
        from <= n,
    ensures
        j == quote_scan_end(s@, from as int),
        from <= j <= n,
    decreases n - from,
{
    let mut j: usize = from;
    while j < n && !quote_or_line_break(s.get_char(j))
        invariant
            from <= j <= n,
            n == s@.len(),
            quote_scan_end(s@, from as int) == quote_scan_end(s@, j as int),
        decreases n - j,
    {
        j = j + 1;
    }
    j
}

/// Extract every quoted fragment of `content`, in source order.
fn quoted_fragments(content: &str) -> (r: Vec<String>)
    ensures
        r.deep_view() == quoted_texts(content@, 0),
{
    let n = content.unicode_len();
    let mut out: Vec<String> = Vec::new();
    let mut i: usize = 0;
    proof {
        assert(out.deep_view() =~= Seq::<Seq<char>>::empty());
        assert(out.deep_view() + quoted_texts(content@, 0) =~= quoted_texts(content@, 0));
    }
    while i < n
        invariant
            0 <= i <= n,
            n == content@.len(),
            quoted_texts(content@, 0) == out.deep_view() + quoted_texts(content@, i as int),
        decreases n - i,
    {
        let is_open = content.get_char(i) == '"';
        if is_open {
            let j = scan_to_quote(content, n, i + 1);
            if j < n && content.get_char(j) == '"' {
                // a closing quote on the same line: capture and trim
                let mut e: usize = j;
                while e > i + 1 && content.get_char(e - 1) == '\\'
                    invariant
                        i + 1 <= e <= j,
                        j < n,
                        n == content@.len(),
                        trim_trailing_backslashes(content@.subrange(i + 1, j as int))
                            == trim_trailing_backslashes(content@.subrange(i + 1, e as int)),
                    decreases e,
                {
                    proof {
                        assert(content@.subrange(i + 1, e as int).drop_last() =~= content@.subrange(
                            i + 1,
                            e - 1,
                        ));
                    }
                    e = e - 1;
                }
                proof {
                    if e == i + 1 {
                        assert(content@.subrange(i + 1, e as int) =~= Seq::<char>::empty());
                        assert(trim_trailing_backslashes(content@.subrange(i + 1, e as int))
                            =~= content@.subrange(i + 1, e as int));
                    } else {
                        assert(content@.subrange(i + 1, e as int).last() == content@[e - 1]);
                        assert(trim_trailing_backslashes(content@.subrange(i + 1, e as int))
                            == content@.subrange(i + 1, e as int));
                    }
                }
                let frag = content.substring_char(i + 1, e);
                let owned = String::from_str(frag);
                let ghost before = out.deep_view();
                out.push(owned);
                proof {
                    assert(out.deep_view() =~= before.push(
                        trim_trailing_backslashes(content@.subrange(i + 1, j as int)),
                    ));
                    assert(quoted_match_at(content@, i as int) == Some(j as int));
                    assert(quoted_next(content@, i as int) == j + 1);
                    assert(quoted_texts(content@, i as int) == seq![
                        trim_trailing_backslashes(content@.subrange(i + 1, j as int)),
                    ] + quoted_texts(content@, j + 1));
                    assert(out.deep_view() + quoted_texts(content@, j + 1) =~= before
                        + quoted_texts(content@, i as int));
                }
                i = j + 1;
            } else {
                proof {
                    assert(quoted_match_at(content@, i as int) is None);
                    assert(quoted_texts(content@, i as int) == quoted_texts(content@, i + 1));
                }
                i = i + 1;
            }
        } else {
            proof {
                assert(quoted_match_at(content@, i as int) is None);
                assert(quoted_texts(content@, i as int) == quoted_texts(content@, i + 1));
            }
            i = i + 1;
        }
    }
    proof {
        assert(quoted_texts(content@, n as int) =~= Seq::<Seq<char>>::empty());
        assert(out.deep_view() + quoted_texts(content@, n as int) =~= out.deep_view());
    }
    out
}

/// Every double-quoted fragment of the content, in source order, trailing
/// stray escapes trimmed; zero fragments is the transient
/// `FailedToParseExistence` error carrying the raw content.
pub fn visible_text_of(content: &str) -> (r: Result<Vec<String>, DaemonError>)
    ensures
        (r is Err) == (quoted_texts(content@, 0).len() == 0),
        r matches Err(e) ==> (e matches DaemonError::FailedToParseExistence(raw) && raw@
            == content@),
        r matches Ok(v) ==> (v.deep_view() == quoted_texts(content@, 0) && v@.len() > 0),
{
    let frags = quoted_fragments(content);
    if frags.len() == 0 {
        Err(DaemonError::FailedToParseExistence(String::from_str(content)))
    } else {
        Ok(frags)
    }
}

} // verus!
