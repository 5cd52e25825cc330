//! Unix path joining on strings, as `Path::join` does it.

use vstd::prelude::*;
use crate::text::{chars_of, push_chars, string_of};

verus! {

/// `Path::join` on Unix: an absolute `p` replaces `dir`; otherwise `p` is appended, with a `/`
/// between the two unless `dir` is empty or already ends with one.
pub open spec fn joined(dir: Seq<char>, p: Seq<char>) -> Seq<char> {
    if p.len() > 0 && p[0] == '/' {
        p
    } else if dir.len() == 0 || dir.last() == '/' {
        dir + p
    } else {
        dir + seq!['/'] + p
    }
}

/// Joins a path and a relative (or absolute) path.
pub fn join_path(dir: &str, p: &str) -> (r: String)
    ensures
        r@ == joined(dir@, p@),
{
    let d = chars_of(dir);
    let q = chars_of(p);
    let mut out: Vec<char> = Vec::new();
    if q.len() > 0 && q[0] == '/' {
        push_chars(&mut out, &q);
    } else {
        push_chars(&mut out, &d);
        if !(d.len() == 0 || d[d.len() - 1] == '/') {
            out.push('/');
        }
        push_chars(&mut out, &q);
    }
    proof {
        assert(out@ =~= joined(dir@, p@));
    }
    string_of(&out)
}

} // verus!
