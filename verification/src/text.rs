//! Small helpers on strings.

use vstd::prelude::*;
use vstd::std_specs::iter::IteratorSpec;

verus! {

/// Whether two string slices hold the same characters.
pub fn str_eq(a: &str, b: &str) -> (same: bool)
    ensures
        same == (a@ == b@),
{
    broadcast use vstd::string::group_string_axioms;

    let mut left = a.chars();
    let mut right = b.chars();
    loop
        invariant
            (a@ == b@) == (left.remaining() == right.remaining()),
            left.obeys_prophetic_iter_laws(),
            right.obeys_prophetic_iter_laws(),
            left.decrease() is Some,
        decreases left.decrease()->0,
    {
        let ghost left_before = left.remaining();
        let ghost right_before = right.remaining();
        match (left.next(), right.next()) {
            (Some(x), Some(y)) => {
                if x != y {
                    assert(left_before[0] != right_before[0]);
                    return false;
                }
                assert(left_before =~= seq![x] + left.remaining());
                assert(right_before =~= seq![y] + right.remaining());
            },
            (None, None) => {
                assert(left_before =~= right_before);
                return true;
            },
            _ => {
                assert(left_before.len() != right_before.len());
                return false;
            },
        }
    }
}

/// Whether `a` comes before `b`, or is `b`, in the order of strings:
/// character by character, a front before what it is the front of.
pub open spec fn lex_le(a: Seq<char>, b: Seq<char>) -> bool
    decreases a.len(),
{
    if a.len() == 0 {
        true
    } else if b.len() == 0 {
        false
    } else if a[0] != b[0] {
        a[0] < b[0]
    } else {
        lex_le(a.drop_first(), b.drop_first())
    }
}

/// Every string is before or at itself.
pub proof fn lemma_lex_le_reflexive(a: Seq<char>)
    ensures
        lex_le(a, a),
    decreases a.len(),
{
    if a.len() > 0 {
        lemma_lex_le_reflexive(a.drop_first());
    }
}

/// Of two strings one is before or at the other.
pub proof fn lemma_lex_le_total(a: Seq<char>, b: Seq<char>)
    ensures
        lex_le(a, b) || lex_le(b, a),
    decreases a.len(),
{
    if a.len() > 0 && b.len() > 0 && a[0] == b[0] {
        lemma_lex_le_total(a.drop_first(), b.drop_first());
    }
}

/// Two strings that are each before or at the other are one string.
pub proof fn lemma_lex_le_antisymmetric(a: Seq<char>, b: Seq<char>)
    requires
        lex_le(a, b),
        lex_le(b, a),
    ensures
        a == b,
    decreases a.len(),
{
    if a.len() > 0 && b.len() > 0 {
        lemma_lex_le_antisymmetric(a.drop_first(), b.drop_first());
        assert(a =~= seq![a[0]] + a.drop_first());
        assert(b =~= seq![b[0]] + b.drop_first());
    } else {
        assert(a =~= b);
    }
}

/// The order of strings is transitive.
pub proof fn lemma_lex_le_transitive(a: Seq<char>, b: Seq<char>, c: Seq<char>)
    requires
        lex_le(a, b),
        lex_le(b, c),
    ensures
        lex_le(a, c),
    decreases a.len(),
{
    if a.len() > 0 && b.len() > 0 && c.len() > 0 && a[0] == b[0] && b[0] == c[0] {
        lemma_lex_le_transitive(a.drop_first(), b.drop_first(), c.drop_first());
    }
}

/// Whether `a` comes before `b`, or is `b`, in the order of strings.
pub fn str_le(a: &str, b: &str) -> (ordered: bool)
    ensures
        ordered == lex_le(a@, b@),
{
    broadcast use vstd::string::group_string_axioms;

    let mut left = a.chars();
    let mut right = b.chars();
    loop
        invariant
            lex_le(a@, b@) == lex_le(left.remaining(), right.remaining()),
            left.obeys_prophetic_iter_laws(),
            right.obeys_prophetic_iter_laws(),
            left.decrease() is Some,
        decreases left.decrease()->0,
    {
        let ghost left_before = left.remaining();
        let ghost right_before = right.remaining();
        let x = match left.next() {
            Some(x) => x,
            None => {
                return true;
            },
        };
        let y = match right.next() {
            Some(y) => y,
            None => {
                return false;
            },
        };
        assert(x == left_before[0] && y == right_before[0]);
        if x != y {
            return x < y;
        }
    }
}

/// Whether `front` is the beginning of `text`.
pub open spec fn is_front_of(front: Seq<char>, text: Seq<char>) -> bool
    decreases front.len(),
{
    if front.len() == 0 {
        true
    } else if text.len() == 0 {
        false
    } else {
        front[0] == text[0] && is_front_of(front.drop_first(), text.drop_first())
    }
}

/// Whether `text` begins with `front`.
pub fn starts_with(text: &str, front: &str) -> (begins: bool)
    ensures
        begins == is_front_of(front@, text@),
{
    broadcast use vstd::string::group_string_axioms;

    let mut wanted = front.chars();
    let mut given = text.chars();
    loop
        invariant
            is_front_of(front@, text@) == is_front_of(wanted.remaining(), given.remaining()),
            wanted.obeys_prophetic_iter_laws(),
            given.obeys_prophetic_iter_laws(),
            wanted.decrease() is Some,
        decreases wanted.decrease()->0,
    {
        let x = match wanted.next() {
            Some(x) => x,
            None => {
                return true;
            },
        };
        let y = match given.next() {
            Some(y) => y,
            None => {
                return false;
            },
        };
        if x != y {
            return false;
        }
    }
}

/// A text in small letters, as `str::to_lowercase` gives it.
pub uninterp spec fn lowercase(text: Seq<char>) -> Seq<char>;

/// A text without the white space at its two ends, as `str::trim` gives
/// it.
pub uninterp spec fn trimmed(text: Seq<char>) -> Seq<char>;

/// Calls `str::to_lowercase`. The contract claims that the outcome depends
/// on the text alone.
#[verifier::external_body]
pub(crate) fn to_lowercase(text: &str) -> (lowered: String)
    ensures
        lowered@ == lowercase(text@),
{
    text.to_lowercase()
}

/// Calls `str::trim`. The contract claims that the outcome depends on the
/// text alone.
#[verifier::external_body]
pub(crate) fn trim(text: &str) -> (inner: &str)
    ensures
        inner@ == trimmed(text@),
{
    text.trim()
}

} // verus!
