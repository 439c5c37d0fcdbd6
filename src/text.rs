use vstd::prelude::*;
use vstd::string::*;

verus! {

/// Columns a character takes on a terminal: 1 for ASCII, 2 otherwise.
pub open spec fn char_width(c: char) -> int {
    if (c as u32) < 128 {
        1
    } else {
        2
    }
}

/// Columns a text takes on a terminal.
pub open spec fn text_width(s: Seq<char>) -> int
    decreases s.len(),
{
    if s.len() == 0 {
        0
    } else {
        text_width(s.drop_last()) + char_width(s.last())
    }
}

proof fn lemma_text_width_bound(s: Seq<char>)
    ensures
        s.len() <= text_width(s) <= 2 * s.len(),
    decreases s.len(),
{
    if s.len() > 0 {
        lemma_text_width_bound(s.drop_last());
    }
}

/// `text_width`, or `usize::MAX` where it is larger.
pub open spec fn capped_width(s: Seq<char>) -> int {
    if text_width(s) <= usize::MAX {
        text_width(s)
    } else {
        usize::MAX as int
    }
}

/// Columns that `s` takes on a terminal, counting 1 for an ASCII character
/// and 2 for any other; `usize::MAX` where the count is larger.
pub fn get_char_len(s: &str) -> (r: usize)
    ensures
        r == capped_width(s@),
{
    let n = s.unicode_len();
    let mut len: usize = 0;
    let mut i: usize = 0;
    while i < n
        invariant
            i <= n,
            n == s@.len(),
            len == capped_width(s@.take(i as int)),
        decreases n - i,
    {
        proof {
            lemma_text_width_bound(s@.take(i as int));
            assert(s@.take(i + 1).drop_last() =~= s@.take(i as int));
        }
        let c = s.get_char(i);
        let w: usize = if (c as u32) < 128 {
            1
        } else {
            2
        };
        if len > usize::MAX - w {
            len = usize::MAX;
        } else {
            len = len + w;
        }
        i += 1;
    }
    assert(s@.take(n as int) =~= s@);
    len
}

/// Whether two texts hold the same characters.
pub fn same_text(a: &str, b: &str) -> (r: bool)
    ensures
        r == (a@ == b@),
{
    let n = a.unicode_len();
    if n != b.unicode_len() {
        return false;
    }
    let mut i: usize = 0;
    while i < n
        invariant
            i <= n,
            n == a@.len(),
            n == b@.len(),
            forall|k: int| 0 <= k < i ==> a@[k] == b@[k],
        decreases n - i,
    {
        if a.get_char(i) != b.get_char(i) {
            return false;
        }
        i += 1;
    }
    assert(a@ =~= b@);
    true
}

} // verus!
