//! Confirmation of destructive steps: what is asked, and which answers
//! give consent.

use vstd::prelude::*;
use vstd::string::*;

verus! {

/// A question put to the operator before something is overwritten.
#[derive(Clone, Copy, Debug, PartialEq, Eq, Structural)]
pub enum Prompt {
    /// The remote archive exists and a push would replace it.
    OverwriteRemote,
    /// The local directory exists and a pull would write over it.
    OverwriteLocal,
    /// The merge engine reported a failure; push the live directory anyway?
    PushAfterFailedMerge,
}

impl Prompt {
    /// The question in words.
    pub open spec fn wording(self) -> Seq<char> {
        match self {
            Prompt::OverwriteRemote => "Remote storage exists: overwrite?"@,
            Prompt::OverwriteLocal => "Local directory exists: overwrite?"@,
            Prompt::PushAfterFailedMerge =>
                "Unison may have produced an error. Transfer to remote anyway?"@,
        }
    }

    /// The question in words.
    pub fn text(self) -> (r: &'static str)
        ensures
            r@ == self.wording(),
    {
        match self {
            Prompt::OverwriteRemote => "Remote storage exists: overwrite?",
            Prompt::OverwriteLocal => "Local directory exists: overwrite?",
            Prompt::PushAfterFailedMerge =>
                "Unison may have produced an error. Transfer to remote anyway?",
        }
    }
}

/// White space, as Unicode defines it.
pub open spec fn is_space(c: char) -> bool {
    let n = c as u32;
    (0x09 <= n <= 0x0d) || n == 0x20 || n == 0x85 || n == 0xa0 || n == 0x1680 || (0x2000 <= n
        <= 0x200a) || n == 0x2028 || n == 0x2029 || n == 0x202f || n == 0x205f || n == 0x3000
}

/// `s` without the white space at its end.
pub open spec fn trim_end(s: Seq<char>) -> Seq<char>
    decreases s.len(),
{
    if s.len() > 0 && is_space(s.last()) {
        trim_end(s.drop_last())
    } else {
        s
    }
}

/// `s` without the white space at its start.
pub open spec fn trim_start(s: Seq<char>) -> Seq<char>
    decreases s.len(),
{
    if s.len() > 0 && is_space(s[0]) {
        trim_start(s.drop_first())
    } else {
        s
    }
}

/// `s` without the white space around it.
pub open spec fn trim(s: Seq<char>) -> Seq<char> {
    trim_end(trim_start(s))
}

/// The answers that give consent: `y`, `Y` and `yes`, with any white space
/// around them.
pub open spec fn affirms(answer: Seq<char>) -> bool {
    let t = trim(answer);
    t == seq!['y'] || t == seq!['Y'] || t == seq!['y', 'e', 's']
}

/// Whether a character is white space.
fn space(c: char) -> (r: bool)
    ensures
        r == is_space(c),
{
    let n: u32 = c as u32;
    (0x09 <= n && n <= 0x0d) || n == 0x20 || n == 0x85 || n == 0xa0 || n == 0x1680 || (0x2000 <= n
        && n <= 0x200a) || n == 0x2028 || n == 0x2029 || n == 0x202f || n == 0x205f || n == 0x3000
}

/// Whether an answer gives consent.
pub fn is_yes(answer: &str) -> (r: bool)
    ensures
        r == affirms(answer@),
{
    let len: usize = answer.unicode_len();
    let mut lo: usize = 0;
    assert(answer@.skip(0) =~= answer@);
    while lo < len && space(answer.get_char(lo))
        invariant
            lo <= len == answer@.len(),
            trim_start(answer@) == trim_start(answer@.skip(lo as int)),
        decreases len - lo,
    {
        assert(answer@.skip(lo as int).drop_first() =~= answer@.skip(lo + 1));
        lo = lo + 1;
    }
    let ghost rest = answer@.skip(lo as int);
    assert(trim_start(answer@) == rest);
    let mut hi: usize = len;
    assert(rest.take(hi - lo) =~= rest);
    while hi > lo && space(answer.get_char(hi - 1))
        invariant
            lo <= hi <= len == answer@.len(),
            rest == answer@.skip(lo as int),
            trim_end(rest) == trim_end(rest.take(hi - lo)),
        decreases hi,
    {
        assert(rest.take(hi - lo).drop_last() =~= rest.take(hi - 1 - lo));
        hi = hi - 1;
    }
    let ghost t = rest.take(hi - lo);
    assert(trim_end(rest) == t);
    assert(t =~= answer@.subrange(lo as int, hi as int));
    let n: usize = hi - lo;
    if n == 1 {
        let c = answer.get_char(lo);
        assert(t =~= seq![c]);
        c == 'y' || c == 'Y'
    } else if n == 3 {
        let a = answer.get_char(lo);
        let b = answer.get_char(lo + 1);
        let c = answer.get_char(lo + 2);
        assert(t =~= seq![a, b, c]);
        a == 'y' && b == 'e' && c == 's'
    } else {
        false
    }
}

} // verus!
