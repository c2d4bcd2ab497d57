//! Plain-text helpers shared across the pipeline: blankness of optional
//! fields, membership and subset tests on lists of names, and the email
//! format check applied to user input.

use vstd::prelude::*;

verus! {

/// Characters treated as whitespace when deciding whether a field is blank.
pub open spec fn is_space(c: char) -> bool {
    c == ' ' || c == '\t' || c == '\n' || c == '\r' || c == '\u{0b}' || c == '\u{0c}'
}

/// A text is blank when every character of it is whitespace; in particular
/// the empty text is blank.
pub open spec fn is_blank(s: Seq<char>) -> bool {
    forall|i: int| 0 <= i < s.len() ==> is_space(s[i])
}

fn space_char(c: char) -> (r: bool)
    ensures
        r == is_space(c),
{
    c == ' ' || c == '\t' || c == '\n' || c == '\r' || c == '\u{0b}' || c == '\u{0c}'
}

/// A field value is treated as absent when it trims to nothing.
pub fn blank(s: &str) -> (r: bool)
    ensures
        r == is_blank(s@),
{
    let n = s.unicode_len();
    let mut i: usize = 0;
    while i < n
        invariant
            n == s@.len(),
            i <= n,
            forall|j: int| 0 <= j < i ==> is_space(s@[j]),
        decreases n - i,
    {
        let c = s.get_char(i);
        if !space_char(c) {
            return false;
        }
        i = i + 1;
    }
    true
}

/// Membership of a text among the views of a list of names.
pub open spec fn contains_text(v: Seq<String>, x: Seq<char>) -> bool {
    exists|i: int| 0 <= i < v.len() && v[i]@ == x
}

/// Every name of `a` occurs in `b`.
pub open spec fn subset_text(a: Seq<String>, b: Seq<String>) -> bool {
    forall|i: int| 0 <= i < a.len() ==> contains_text(b, #[trigger] a[i]@)
}

/// Some name occurs in both lists.
pub open spec fn intersects_text(a: Seq<String>, b: Seq<String>) -> bool {
    exists|i: int| 0 <= i < a.len() && contains_text(b, #[trigger] a[i]@)
}

/// Linear membership scan.
pub fn contains_string(v: &Vec<String>, x: &String) -> (r: bool)
    ensures
        r == contains_text(v@, x@),
{
    let mut i: usize = 0;
    while i < v.len()
        invariant
            i <= v@.len(),
            forall|j: int| 0 <= j < i ==> v@[j]@ != x@,
        decreases v@.len() - i,
    {
        if v[i] == *x {
            return true;
        }
        i = i + 1;
    }
    false
}

/// Subset scan: every name of `a` must occur in `b`.
pub fn is_subset(a: &Vec<String>, b: &Vec<String>) -> (r: bool)
    ensures
        r == subset_text(a@, b@),
{
    let mut i: usize = 0;
    while i < a.len()
        invariant
            i <= a@.len(),
            forall|j: int| 0 <= j < i ==> contains_text(b@, #[trigger] a@[j]@),
        decreases a@.len() - i,
    {
        if !contains_string(b, &a[i]) {
            return false;
        }
        i = i + 1;
    }
    true
}

/// Intersection scan: some name of `a` occurs in `b`.
pub fn intersects(a: &Vec<String>, b: &Vec<String>) -> (r: bool)
    ensures
        r == intersects_text(a@, b@),
{
    let mut i: usize = 0;
    while i < a.len()
        invariant
            i <= a@.len(),
            forall|j: int| 0 <= j < i ==> !contains_text(b@, #[trigger] a@[j]@),
        decreases a@.len() - i,
    {
        if contains_string(b, &a[i]) {
            return true;
        }
        i = i + 1;
    }
    false
}

/// The email format accepted for the user resource: exactly one `@`, a
/// non-empty local part, and a dot inside the domain that is neither the
/// first character of the domain nor the last character of the address.
pub open spec fn valid_email(s: Seq<char>) -> bool {
    exists|a: int|
        {
            &&& 0 < a < s.len()
            &&& s[a] == '@'
            &&& (forall|i: int| 0 <= i < s.len() && i != a ==> s[i] != '@')
            &&& exists|d: int| a + 1 < d < s.len() - 1 && s[d] == '.'
        }
}

/// Scans the address once, recording the position of the only `@` and
/// whether an interior dot follows it.
pub fn is_valid_email(s: &str) -> (r: bool)
    ensures
        r == valid_email(s@),
{
    let n = s.unicode_len();
    let mut at_pos: usize = 0;
    let mut seen_at: bool = false;
    let mut two_ats: bool = false;
    let mut good_dot: bool = false;
    let mut i: usize = 0;
    while i < n
        invariant
            n == s@.len(),
            i <= n,
            !seen_at ==> forall|j: int| 0 <= j < i ==> s@[j] != '@',
            seen_at ==> at_pos < i && s@[at_pos as int] == '@',
            seen_at ==> forall|j: int| 0 <= j < at_pos ==> s@[j] != '@',
            !two_ats ==> forall|j: int|
                0 <= j < i && seen_at && j != at_pos ==> s@[j] != '@',
            two_ats ==> seen_at,
            two_ats ==> exists|j: int|
                0 <= j < i && j != at_pos && s@[j] == '@',
            good_dot == exists|d: int|
                seen_at && at_pos + 1 < d < i && i < n + 1 && d < n - 1 && s@[d] == '.',
        decreases n - i,
    {
        let c = s.get_char(i);
        if c == '@' {
            if seen_at {
                two_ats = true;
            } else {
                seen_at = true;
                at_pos = i;
            }
        } else if c == '.' {
            if seen_at && i > at_pos + 1 && i + 1 < n {
                good_dot = true;
            }
        }
        i = i + 1;
    }
    let r = seen_at && !two_ats && at_pos > 0 && good_dot;
    proof {
        if r {
            assert(valid_email(s@)) by {
                assert(0 < at_pos < s@.len());
                assert(s@[at_pos as int] == '@');
            }
        }
        if valid_email(s@) && !r {
            let a = choose|a: int|
                {
                    &&& 0 < a < s@.len()
                    &&& s@[a] == '@'
                    &&& (forall|i: int| 0 <= i < s@.len() && i != a ==> s@[i] != '@')
                    &&& exists|d: int| a + 1 < d < s@.len() - 1 && s@[d] == '.'
                };
            assert(seen_at);
            assert(at_pos as int == a);
            assert(false);
        }
    }
    r
}

} // verus!
