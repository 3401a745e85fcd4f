//! The last component of a path.
//!
//! A path is a run of bytes in which `/` separates the components. Empty
//! components and components that are a single dot do not count.

use vstd::prelude::*;
use vstd::slice::slice_subrange;
use vstd::string::StringSliceAdditionalSpecFns;
use vstd::utf8::valid_utf8;

verus! {

/// The byte that separates the components of a path.
pub const SEPARATOR: u8 = 0x2f;

/// The byte of a dot.
pub const DOT: u8 = 0x2e;

/// The number of bytes at the back of `p` behind its last separator.
pub open spec fn tail_len(p: Seq<u8>) -> nat
    decreases p.len(),
{
    if p.len() > 0 && p.last() != SEPARATOR {
        1 + tail_len(p.drop_last())
    } else {
        0
    }
}

/// The last component of a path that names something: not empty, not a
/// single dot. There is none where that component is two dots, nor in a
/// path without such a component.
pub open spec fn file_name_of(p: Seq<u8>) -> Option<Seq<u8>>
    decreases p.len(),
{
    if p.len() == 0 {
        None
    } else {
        let last = p.skip(p.len() - tail_len(p));
        if last.len() == 0 || last == seq![DOT] {
            file_name_of(p.drop_last())
        } else if last == seq![DOT, DOT] {
            None
        } else {
            Some(last)
        }
    }
}

/// The file name of a path that exists, where that name is UTF-8.
pub open spec fn basename_of(path: Seq<u8>, exists: bool) -> Option<Seq<u8>> {
    match file_name_of(path) {
        Some(name) => if exists && valid_utf8(name) {
            Some(name)
        } else {
            None
        },
        None => None,
    }
}

/// A run at the back of `p` that begins behind a separator, or with `p`, and
/// holds none is the tail of `p`.
proof fn lemma_tail_is(p: Seq<u8>, n: int)
    requires
        0 <= n <= p.len(),
        forall|k: int| p.len() - n <= k < p.len() ==> #[trigger] p[k] != SEPARATOR,
        n == p.len() || p[p.len() - n - 1] == SEPARATOR,
    ensures
        tail_len(p) == n,
    decreases n,
{
    if n > 0 {
        let q = p.drop_last();
        assert(forall|k: int| 0 <= k < q.len() ==> q[k] == p[k]);
        lemma_tail_is(q, n - 1);
    }
}

/// Where the last component of a path stands, if it has one.
pub fn file_name(path: &[u8]) -> (r: Option<(usize, usize)>)
    ensures
        match r {
            Some((from, to)) => from < to <= path@.len() && file_name_of(path@) == Some(
                path@.subrange(from as int, to as int),
            ),
            None => file_name_of(path@) is None,
        },
{
    let mut end: usize = path.len();
    assert(path@.take(end as int) =~= path@);
    while end > 0
        invariant
            end <= path.len(),
            file_name_of(path@.take(end as int)) == file_name_of(path@),
        decreases end,
    {
        let mut start: usize = end;
        while start > 0 && path[start - 1] != SEPARATOR
            invariant
                start <= end <= path.len(),
                forall|k: int| start <= k < end ==> #[trigger] path@[k] != SEPARATOR,
            decreases start,
        {
            start = start - 1;
        }
        let ghost p = path@.take(end as int);
        proof {
            assert(forall|k: int| 0 <= k < end ==> p[k] == path@[k]);
            lemma_tail_is(p, end - start);
            assert(p.skip(p.len() - tail_len(p)) =~= path@.subrange(start as int, end as int));
            assert(p.drop_last() =~= path@.take(end - 1));
        }
        let len: usize = end - start;
        if len == 0 || (len == 1 && path[start] == DOT) {
            proof {
                if len == 1 {
                    assert(path@.subrange(start as int, end as int) =~= seq![DOT]);
                }
            }
            end = end - 1;
        } else if len == 2 && path[start] == DOT && path[start + 1] == DOT {
            assert(path@.subrange(start as int, end as int) =~= seq![DOT, DOT]);
            return None;
        } else {
            proof {
                let last = path@.subrange(start as int, end as int);
                assert(last[0] == path@[start as int]);
                if len == 2 {
                    assert(last[1] == path@[start + 1]);
                }
                assert(last != seq![DOT]);
                assert(last != seq![DOT, DOT]);
            }
            return Some((start, end));
        }
    }
    assert(path@.take(0) =~= Seq::<u8>::empty());
    None
}

/// The file name of a path, as text, if the path exists.
///
/// Whether the path exists is for the caller to find out. A name that is
/// not UTF-8 is no text, and there is none then.
pub fn get_basename_str(path: &[u8], exists: bool) -> (name: Option<&str>)
    ensures
        match name {
            Some(text) => basename_of(path@, exists) == Some(text.spec_bytes()),
            None => basename_of(path@, exists) is None,
        },
{
    if !exists {
        return None;
    }
    match file_name(path) {
        Some((from, to)) => match core::str::from_utf8(slice_subrange(path, from, to)) {
            Ok(text) => Some(text),
            Err(_) => None,
        },
        None => None,
    }
}

} // verus!
