//! Display-column widths of characters and character sequences.
//!
//! All layout reasoning in this crate is in display columns: each character
//! occupies some number of terminal cells, which is distinct both from its
//! byte length and from its count as a character.

use vstd::prelude::*;

verus! {

/// The number of terminal columns that one character occupies.
pub uninterp spec fn char_display_width(c: char) -> nat;

/// The display width of a sequence of characters: the sum of the widths of
/// its characters.
pub open spec fn seq_display_width(s: Seq<char>) -> nat
    decreases s.len(),
{
    if s.len() == 0 {
        0
    } else {
        seq_display_width(s.drop_last()) + char_display_width(s.last())
    }
}

/// Holds when every character of `s` occupies at most one column, so that
/// display width never exceeds character count.
pub open spec fn all_narrow(s: Seq<char>) -> bool {
    forall|i: int| 0 <= i < s.len() ==> char_display_width(#[trigger] s[i]) <= 1
}

/// Relies on `unicode_width::UnicodeWidthChar::width` for the column width
/// of a character; a control character, for which it reports no width,
/// counts as zero columns. Its tables yield no width above three.
#[verifier::external_body]
pub(crate) fn exec_char_width(c: char) -> (w: usize)
    ensures
        w == char_display_width(c),
        w <= 3,
{
    unicode_width::UnicodeWidthChar::width(c).unwrap_or(0)
}

pub proof fn lemma_seq_display_width_concat(a: Seq<char>, b: Seq<char>)
    ensures
        seq_display_width(a + b) == seq_display_width(a) + seq_display_width(b),
    decreases b.len(),
{
    if b.len() == 0 {
        assert(a + b =~= a);
    } else {
        lemma_seq_display_width_concat(a, b.drop_last());
        assert((a + b).drop_last() =~= a + b.drop_last());
        assert((a + b).last() == b.last());
    }
}

pub proof fn lemma_seq_display_width_singleton(c: char)
    ensures
        seq_display_width(seq![c]) == char_display_width(c),
{
    assert(seq_display_width(Seq::<char>::empty()) == 0);
    assert(seq![c].drop_last() =~= Seq::<char>::empty());
    assert(seq![c].last() == c);
}

/// Holds when every character of `s` occupies at least one column.
pub open spec fn all_positive(s: Seq<char>) -> bool {
    forall|i: int| 0 <= i < s.len() ==> char_display_width(#[trigger] s[i]) >= 1
}

/// A sequence of characters that each occupy at least one column is at
/// least as wide as it is long.
pub proof fn lemma_positive_width_ge_len(s: Seq<char>)
    requires
        all_positive(s),
    ensures
        seq_display_width(s) >= s.len(),
    decreases s.len(),
{
    if s.len() > 0 {
        assert(all_positive(s.drop_last())) by {
            assert(forall|i: int|
                0 <= i < s.len() - 1 ==> #[trigger] s.drop_last()[i] == s[i]);
        }
        lemma_positive_width_ge_len(s.drop_last());
        assert(char_display_width(s.last()) >= 1);
    }
}

/// A sequence of positive display width holds at least one character.
pub proof fn lemma_positive_width_nonempty(s: Seq<char>)
    requires
        seq_display_width(s) > 0,
    ensures
        s.len() > 0,
{
}

/// The display width of a string, computed character by character.
pub fn str_display_width(s: &str) -> (w: usize)
    requires
        s@.len() * 3 <= usize::MAX,
    ensures
        w == seq_display_width(s@),
        w <= s@.len() * 3,
{
    let n: usize = s.unicode_len();
    let mut w: usize = 0;
    let mut i: usize = 0;
    while i < n
        invariant
            0 <= i <= n,
            n == s@.len(),
            n * 3 <= usize::MAX,
            w == seq_display_width(s@.take(i as int)),
            w <= i * 3,
        decreases n - i,
    {
        let c = s.get_char(i);
        let cw = exec_char_width(c);
        proof {
            assert(s@.take(i + 1).drop_last() =~= s@.take(i as int));
            assert(s@.take(i + 1).last() == s@[i as int]);
        }
        w = w + cw;
        i = i + 1;
    }
    proof {
        assert(s@.take(n as int) =~= s@);
    }
    w
}

} // verus!
