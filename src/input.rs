//! What the user types while paging through a listing, and how sizes are shown.

use crate::client::StatEntry;
use crate::text::same_text;
use vstd::prelude::*;

verus! {

/// An ASCII decimal digit.
pub open spec fn is_digit(c: char) -> bool {
    '0' <= c && c <= '9'
}

/// The value of a run of decimal digits.
pub open spec fn digits_value(d: Seq<char>) -> nat
    decreases d.len(),
{
    if d.len() == 0 {
        0
    } else {
        digits_value(d.drop_last()) * 10 + ((d.last() as u32) - ('0' as u32)) as nat
    }
}

/// One or more decimal digits.
pub open spec fn all_digits(d: Seq<char>) -> bool {
    d.len() > 0 && forall|i: int| 0 <= i < d.len() ==> is_digit(#[trigger] d[i])
}

/// The digits of an unsigned decimal text: an optional `+`, then the digits.
pub open spec fn unsigned_digits(s: Seq<char>) -> Seq<char> {
    if s.len() > 0 && s[0] == '+' {
        s.drop_first()
    } else {
        s
    }
}

/// The value of `s` read as a `usize` in decimal, or `None` when `s` is no such
/// number or the number does not fit.
pub open spec fn usize_value(s: Seq<char>) -> Option<usize> {
    let d = unsigned_digits(s);
    if all_digits(d) && digits_value(d) <= usize::MAX {
        Some(digits_value(d) as usize)
    } else {
        None
    }
}

proof fn lemma_digits_monotone(d: Seq<char>, i: int)
    requires
        0 <= i <= d.len(),
        forall|k: int| 0 <= k < d.len() ==> is_digit(#[trigger] d[k]),
    ensures
        digits_value(d.subrange(0, i)) <= digits_value(d),
    decreases d.len(),
{
    if i < d.len() {
        let init = d.drop_last();
        assert(forall|k: int| 0 <= k < init.len() ==> init[k] == d[k]);
        lemma_digits_monotone(init, i);
        assert(init.subrange(0, i) =~= d.subrange(0, i));
    } else {
        assert(d.subrange(0, i) =~= d);
    }
}

/// Reads `s` as a `usize` in decimal: an optional `+`, then one or more digits.
pub fn parse_usize(s: &str) -> (r: Option<usize>)
    ensures
        r == usize_value(s@),
{
    let n = s.unicode_len();
    let start: usize = if n > 0 && s.get_char(0) == '+' {
        1
    } else {
        0
    };
    let ghost d = unsigned_digits(s@);
    assert(d =~= s@.subrange(start as int, n as int));
    if start >= n {
        assert(d.len() == 0);
        return None;
    }
    let mut i: usize = start;
    while i < n
        invariant
            start <= i <= n,
            n == s@.len(),
            d == s@.subrange(start as int, n as int),
            d == unsigned_digits(s@),
            forall|k: int| start <= k < i ==> is_digit(#[trigger] s@[k]),
        decreases n - i,
    {
        let c = s.get_char(i);
        if !('0' <= c && c <= '9') {
            assert(!is_digit(d[i - start]));
            assert(!all_digits(d));
            return None;
        }
        i = i + 1;
    }
    assert(all_digits(d));
    let mut value: usize = 0;
    let mut i: usize = start;
    while i < n
        invariant
            start <= i <= n,
            n == s@.len(),
            d == s@.subrange(start as int, n as int),
            d == unsigned_digits(s@),
            all_digits(d),
            value as nat == digits_value(d.subrange(0, i - start)),
        decreases n - i,
    {
        let c = s.get_char(i);
        assert(d[i - start] == c);
        assert(is_digit(c));
        let digit = (c as u32 - '0' as u32) as usize;
        let ghost p = d.subrange(0, i + 1 - start);
        proof {
            assert(p.drop_last() =~= d.subrange(0, i - start));
            assert(p.last() == c);
            assert(digits_value(p) == value * 10 + digit);
        }
        match value.checked_mul(10) {
            Some(v) => match v.checked_add(digit) {
                Some(w) => {
                    value = w;
                },
                None => {
                    proof {
                        lemma_digits_monotone(d, i + 1 - start);
                        assert(digits_value(d) > usize::MAX);
                    }
                    return None;
                },
            },
            None => {
                proof {
                    lemma_digits_monotone(d, i + 1 - start);
                    assert(value * 10 > usize::MAX);
                    assert(digits_value(d) > usize::MAX);
                }
                return None;
            },
        }
        i = i + 1;
    }
    assert(d.subrange(0, n - start) =~= d);
    Some(value)
}

/// What to do after a page was shown.
#[derive(Debug, Clone, Copy, PartialEq, Eq, Structural)]
pub enum NextAction {
    Quit,
    Next,
    /// Show the item at this 1-based position.
    Print(usize),
}

/// The line without its final line feed.
pub open spec fn without_newline(line: Seq<char>) -> Seq<char> {
    if line.len() > 0 && line.last() == '\n' {
        line.drop_last()
    } else {
        line
    }
}

/// Reads the user's answer: a number picks an item, `q` quits, anything else moves
/// on to the next page. A final line feed is ignored.
pub fn next_action(line: &str) -> (r: NextAction)
    ensures
        usize_value(without_newline(line@)) matches Some(n) ==> r == NextAction::Print(n),
        usize_value(without_newline(line@)) is None ==> (without_newline(line@) == "q"@ ==> r
            == NextAction::Quit),
        usize_value(without_newline(line@)) is None ==> (without_newline(line@) != "q"@ ==> r
            == NextAction::Next),
{
    let n = line.unicode_len();
    let text = if n > 0 && line.get_char(n - 1) == '\n' {
        line.substring_char(0, n - 1)
    } else {
        line
    };
    assert(text@ =~= without_newline(line@));
    match parse_usize(text) {
        Some(idx) => NextAction::Print(idx),
        None => if same_text(text, "q") {
            NextAction::Quit
        } else {
            NextAction::Next
        },
    }
}

/// The item at a 1-based position of a page, if there is one.
pub fn item_at(items: &Vec<StatEntry>, position: usize) -> (r: Option<&StatEntry>)
    ensures
        (1 <= position <= items@.len()) ==> r == Some(&items@[position - 1]),
        !(1 <= position <= items@.len()) ==> r is None,
{
    if position >= 1 && position <= items.len() {
        Some(&items[position - 1])
    } else {
        None
    }
}

/// `s` with a `.` put before its last character.
pub open spec fn with_point(s: Seq<char>) -> Seq<char> {
    s.drop_last() + seq!['.'] + seq![s.last()]
}

/// A decimal byte count shown with its unit: up to three digits in bytes, up to six
/// in kilobytes and beyond in megabytes, each with one decimal digit kept; in raw
/// form, or when empty, the text as it is.
pub open spec fn content_length_text(input: Seq<char>, raw: bool) -> Seq<char> {
    let n = input.len();
    if raw || n == 0 {
        input
    } else if n <= 3 {
        input + "B"@
    } else if n <= 6 {
        with_point(input.subrange(0, n - 2)) + "kB"@
    } else {
        with_point(input.subrange(0, n - 5)) + "MB"@
    }
}

fn point_before_last(s: &str) -> (r: String)
    requires
        s@.len() > 0,
    ensures
        r@ == with_point(s@),
{
    let n = s.unicode_len();
    let mut r = s.substring_char(0, n - 1).to_owned();
    r.append(".");
    r.append(s.substring_char(n - 1, n));
    proof {
        reveal_strlit(".");
        assert(r@ =~= with_point(s@));
    }
    r
}

/// Shows a decimal byte count with its unit (see [`content_length_text`]).
pub fn parse_content_length(input: &str, raw: bool) -> (r: String)
    ensures
        r@ == content_length_text(input@, raw),
{
    let n = input.unicode_len();
    if raw || n == 0 {
        return input.to_owned();
    }
    if n <= 3 {
        let mut r = input.to_owned();
        r.append("B");
        return r;
    }
    let (keep, unit) = if n <= 6 {
        (n - 2, "kB")
    } else {
        (n - 5, "MB")
    };
    let mut r = point_before_last(input.substring_char(0, keep));
    r.append(unit);
    r
}

/// The replacement of the first suggestion whose shown text is `shown`.
pub open spec fn replacement_of(suggestions: Seq<(Seq<char>, Seq<char>)>, shown: Seq<char>) -> Option<Seq<char>>
    decreases suggestions.len(),
{
    if suggestions.len() == 0 {
        None
    } else if suggestions[0].0 == shown {
        Some(suggestions[0].1)
    } else {
        replacement_of(suggestions.drop_first(), shown)
    }
}

/// The plain values of (shown text, replacement) suggestions.
pub open spec fn suggestion_views(s: Seq<(String, String)>) -> Seq<(Seq<char>, Seq<char>)> {
    s.map_values(|p: (String, String)| (p.0@, p.1@))
}

/// What completes the user's input: with a highlighted suggestion, its replacement
/// (the input itself when no suggestion shows that text); without one, the first
/// suggestion's replacement, if any.
pub fn completion_for(suggestions: &Vec<(String, String)>, input: &str, highlighted: Option<String>) -> (r: Option<String>)
    ensures
        highlighted matches Some(h) ==> match replacement_of(suggestion_views(suggestions@), h@) {
            Some(t) => r matches Some(x) && x@ == t,
            None => r matches Some(x) && x@ == input@,
        },
        highlighted is None ==> (suggestions@.len() == 0 <==> r is None),
        highlighted is None ==> (r matches Some(x) ==> x@ == suggestions@[0].1@),
{
    match highlighted {
        Some(h) => {
            let ghost sv = suggestion_views(suggestions@);
            let mut i: usize = 0;
            assert(sv.subrange(0, sv.len() as int) =~= sv);
            while i < suggestions.len()
                invariant
                    highlighted == Some(h),
                    i <= suggestions@.len(),
                    sv == suggestion_views(suggestions@),
                    replacement_of(sv.subrange(i as int, sv.len() as int), h@) == replacement_of(sv, h@),
                decreases suggestions@.len() - i,
            {
                let ghost rest = sv.subrange(i as int, sv.len() as int);
                assert(rest.drop_first() =~= sv.subrange(i + 1, sv.len() as int));
                assert(rest[0] == (suggestions@[i as int].0@, suggestions@[i as int].1@));
                if same_text(suggestions[i].0.as_str(), h.as_str()) {
                    return Some(suggestions[i].1.clone());
                }
                i = i + 1;
            }
            assert(sv.subrange(i as int, sv.len() as int).len() == 0);
            Some(input.to_owned())
        },
        None => {
            if suggestions.len() == 0 {
                None
            } else {
                Some(suggestions[0].1.clone())
            }
        },
    }
}

} // verus!
