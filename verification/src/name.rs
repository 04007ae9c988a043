//! Entry name codec: joins the components of a traversal-relative path with
//! the container's mandated separator and rejects any name whose bytes are not
//! valid text in the mandated encoding (UTF-8). Rejection is exact: a name is
//! accepted if and only if its bytes decode as UTF-8, so no entry name is ever
//! silently substituted or truncated.

use vstd::prelude::*;
use crate::WrongFilenameError;

verus! {

/// A UTF-8 continuation byte.
pub open spec fn is_cont(b: u8) -> bool {
    0x80 <= b && b <= 0xBF
}

/// The bytes are a well-formed UTF-8 encoding: a sequence of one- to
/// four-byte scalar-value encodings, with overlong forms and surrogate
/// code points excluded, exactly as the encoding mandates.
pub open spec fn is_utf8(s: Seq<u8>) -> bool
    decreases s.len(),
{
    if s.len() == 0 {
        true
    } else {
        let b0 = s[0];
        if b0 < 0x80 {
            is_utf8(s.skip(1))
        } else if 0xC2 <= b0 && b0 <= 0xDF {
            s.len() >= 2 && is_cont(s[1]) && is_utf8(s.skip(2))
        } else if b0 == 0xE0 {
            s.len() >= 3 && 0xA0 <= s[1] && s[1] <= 0xBF && is_cont(s[2]) && is_utf8(s.skip(3))
        } else if (0xE1 <= b0 && b0 <= 0xEC) || b0 == 0xEE || b0 == 0xEF {
            s.len() >= 3 && is_cont(s[1]) && is_cont(s[2]) && is_utf8(s.skip(3))
        } else if b0 == 0xED {
            s.len() >= 3 && 0x80 <= s[1] && s[1] <= 0x9F && is_cont(s[2]) && is_utf8(s.skip(3))
        } else if b0 == 0xF0 {
            s.len() >= 4 && 0x90 <= s[1] && s[1] <= 0xBF && is_cont(s[2]) && is_cont(s[3])
                && is_utf8(s.skip(4))
        } else if 0xF1 <= b0 && b0 <= 0xF3 {
            s.len() >= 4 && is_cont(s[1]) && is_cont(s[2]) && is_cont(s[3]) && is_utf8(s.skip(4))
        } else if b0 == 0xF4 {
            s.len() >= 4 && 0x80 <= s[1] && s[1] <= 0x8F && is_cont(s[2]) && is_cont(s[3])
                && is_utf8(s.skip(4))
        } else {
            false
        }
    }
}

proof fn lemma_skip_skip(s: Seq<u8>, i: int, k: int)
    requires
        0 <= i,
        0 <= k,
        i + k <= s.len(),
    ensures
        s.skip(i).skip(k) == s.skip(i + k),
{
    assert(s.skip(i).skip(k) =~= s.skip(i + k));
}

/// Decides UTF-8 validity of `s`, exactly as `is_utf8` states it.
pub fn check_utf8(s: &Vec<u8>) -> (r: bool)
    ensures
        r == is_utf8(s@),
{
    let n = s.len();
    let mut i: usize = 0;
    proof {
        assert(s@.skip(0) =~= s@);
    }
    while i < n
        invariant
            0 <= i <= n,
            n == s@.len(),
            is_utf8(s@) == is_utf8(s@.skip(i as int)),
        decreases n - i,
    {
        let ghost tail = s@.skip(i as int);
        let b0 = s[i];
        assert(tail.len() == n - i);
        assert(tail[0] == b0);
        let step: usize;
        if b0 < 0x80 {
            step = 1;
        } else if 0xC2 <= b0 && b0 <= 0xDF {
            if !(n - i >= 2 && 0x80 <= s[i + 1] && s[i + 1] <= 0xBF) {
                return false;
            }
            step = 2;
        } else if b0 == 0xE0 {
            if !(n - i >= 3 && 0xA0 <= s[i + 1] && s[i + 1] <= 0xBF && 0x80 <= s[i + 2]
                && s[i + 2] <= 0xBF) {
                return false;
            }
            step = 3;
        } else if (0xE1 <= b0 && b0 <= 0xEC) || b0 == 0xEE || b0 == 0xEF {
            if !(n - i >= 3 && 0x80 <= s[i + 1] && s[i + 1] <= 0xBF && 0x80 <= s[i + 2]
                && s[i + 2] <= 0xBF) {
                return false;
            }
            step = 3;
        } else if b0 == 0xED {
            if !(n - i >= 3 && 0x80 <= s[i + 1] && s[i + 1] <= 0x9F && 0x80 <= s[i + 2]
                && s[i + 2] <= 0xBF) {
                return false;
            }
            step = 3;
        } else if b0 == 0xF0 {
            if !(n - i >= 4 && 0x90 <= s[i + 1] && s[i + 1] <= 0xBF && 0x80 <= s[i + 2]
                && s[i + 2] <= 0xBF && 0x80 <= s[i + 3] && s[i + 3] <= 0xBF) {
                return false;
            }
            step = 4;
        } else if 0xF1 <= b0 && b0 <= 0xF3 {
            if !(n - i >= 4 && 0x80 <= s[i + 1] && s[i + 1] <= 0xBF && 0x80 <= s[i + 2]
                && s[i + 2] <= 0xBF && 0x80 <= s[i + 3] && s[i + 3] <= 0xBF) {
                return false;
            }
            step = 4;
        } else if b0 == 0xF4 {
            if !(n - i >= 4 && 0x80 <= s[i + 1] && s[i + 1] <= 0x8F && 0x80 <= s[i + 2]
                && s[i + 2] <= 0xBF && 0x80 <= s[i + 3] && s[i + 3] <= 0xBF) {
                return false;
            }
            step = 4;
        } else {
            assert(!is_utf8(tail));
            return false;
        }
        proof {
            lemma_skip_skip(s@, i as int, step as int);
        }
        i += step;
    }
    assert(s@.skip(n as int) =~= Seq::<u8>::empty());
    true
}

/// The path components joined with the container's mandated separator `/`.
pub open spec fn join_name(cs: Seq<Seq<u8>>) -> Seq<u8>
    decreases cs.len(),
{
    if cs.len() == 0 {
        Seq::empty()
    } else if cs.len() == 1 {
        cs[0]
    } else {
        join_name(cs.drop_last()) + seq![47u8] + cs.last()
    }
}

/// Encodes a traversal-relative path, given as its components in order, as an
/// archive entry name: the components joined with `/`. Returns the error, and
/// no name, exactly when the joined bytes are not valid UTF-8.
pub fn encode_entry_name(components: &Vec<Vec<u8>>) -> (r: Result<Vec<u8>, WrongFilenameError>)
    ensures
        r is Ok <==> is_utf8(join_name(components.deep_view())),
        r is Ok ==> r->Ok_0@ == join_name(components.deep_view()),
{
    let ghost cs = components.deep_view();
    let mut out: Vec<u8> = Vec::new();
    let mut i: usize = 0;
    while i < components.len()
        invariant
            0 <= i <= components.len(),
            cs == components.deep_view(),
            cs.len() == components@.len(),
            out@ == join_name(cs.take(i as int)),
        decreases components.len() - i,
    {
        proof {
            assert(cs.take(i as int + 1).drop_last() =~= cs.take(i as int));
            assert(cs.take(i as int + 1).last() == cs[i as int]);
            assert(components@[i as int]@ == cs[i as int]);
        }
        if i > 0 {
            out.push(47u8);
        }
        out.extend_from_slice(components[i].as_slice());
        proof {
            if i == 0 {
                assert(out@ =~= join_name(cs.take(1)));
            }
        }
        i += 1;
    }
    proof {
        assert(cs.take(components@.len() as int) =~= cs);
    }
    if check_utf8(&out) {
        Ok(out)
    } else {
        Err(WrongFilenameError::new())
    }
}

} // verus!
