//! The names of processes.
use vstd::prelude::*;
use vstd::string::*;

use crate::text::to_chars;

verus! {

/// The text that bytes stand for in UTF-8, with a replacement character for what is
/// not valid, as `String::from_utf8_lossy` gives it.
pub uninterp spec fn lossy_text(bytes: Seq<u8>) -> Seq<char>;

/// Calls `String::from_utf8_lossy`. Its result depends on the bytes alone; nothing
/// else is claimed of it.
#[verifier::external_body]
fn from_utf8_lossy(bytes: &Vec<u8>) -> (text: String)
    ensures
        text@ == lossy_text(bytes@),
{
    String::from_utf8_lossy(bytes).into_owned()
}

/// A text without the NUL characters at its end.
pub open spec fn nuls_trimmed(s: Seq<char>) -> Seq<char>
    decreases s.len(),
{
    if s.len() > 0 && s.last() == '\0' {
        nuls_trimmed(s.drop_last())
    } else {
        s
    }
}

/// A text without the NUL characters at its end.
pub fn without_trailing_nuls(text: &str) -> (out: String)
    ensures
        out@ == nuls_trimmed(text@),
{
    let s: Vec<char> = to_chars(text);
    let mut n: usize = s.len();
    proof {
        assert(text@.take(n as int) =~= text@);
    }
    while n > 0 && s[n - 1] == '\0'
        invariant
            s@ == text@,
            n <= s@.len(),
            nuls_trimmed(text@) == nuls_trimmed(text@.take(n as int)),
        decreases n,
    {
        proof {
            assert(text@.take(n as int).drop_last() =~= text@.take(n - 1));
        }
        n = n - 1;
    }
    proof {
        assert(text@.subrange(0, n as int) =~= text@.take(n as int));
    }
    text.substring_char(0, n).to_owned()
}

/// The name of a process, from the bytes that the system has put into a buffer and
/// from how many it says there are; empty where it says that there are none.
pub fn proc_name(buffer: &Vec<u8>, size: i32) -> (name: String)
    requires
        size <= buffer@.len(),
    ensures
        name@ == if size <= 0 {
            Seq::empty()
        } else {
            nuls_trimmed(lossy_text(buffer@.take(size as int)))
        },
{
    if size <= 0 {
        return String::new();
    }
    let mut bytes: Vec<u8> = Vec::new();
    let mut i: usize = 0;
    while i < size as usize
        invariant
            i <= size,
            0 < size <= buffer@.len(),
            bytes@ == buffer@.take(i as int),
        decreases size - i,
    {
        bytes.push(buffer[i]);
        i = i + 1;
        proof {
            assert(bytes@ =~= buffer@.take(i as int));
        }
    }
    let text: String = from_utf8_lossy(&bytes);
    without_trailing_nuls(text.as_str())
}

/// What is taken off the end of a text are NULs, all of them and nothing else.
pub proof fn law_only_trailing_nuls_go(s: Seq<char>)
    ensures
        nuls_trimmed(s).len() <= s.len(),
        nuls_trimmed(s) == s.take(nuls_trimmed(s).len() as int),
        forall|i: int| nuls_trimmed(s).len() <= i < s.len() ==> #[trigger] s[i] == '\0',
        nuls_trimmed(s).len() > 0 ==> nuls_trimmed(s).last() != '\0',
    decreases s.len(),
{
    if s.len() > 0 && s.last() == '\0' {
        let t = s.drop_last();
        law_only_trailing_nuls_go(t);
        let n = nuls_trimmed(s).len() as int;
        assert(t.take(n) =~= s.take(n));
        assert forall|i: int| n <= i < s.len() implies #[trigger] s[i] == '\0' by {
            if i < t.len() {
                assert(t[i] == '\0');
            }
        }
    } else {
        assert(s.take(s.len() as int) =~= s);
    }
}

} // verus!
