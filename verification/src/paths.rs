//! Paths as text. Joining a relative component follows `Path::join` on Unix:
//! a separator is added unless the base is empty or already ends with one.
use vstd::prelude::*;
use crate::text::{push_char, push_str};

verus! {

/// `base` joined with the relative component `comp`.
pub open spec fn join(base: Seq<char>, comp: Seq<char>) -> Seq<char> {
    if base.len() == 0 || base.last() == '/' {
        base + comp
    } else {
        base + seq!['/'] + comp
    }
}

/// Joins a relative component to a path.
pub fn join_path(base: &str, comp: &str) -> (r: String)
    ensures
        r@ == join(base@, comp@),
{
    let mut s = base.to_owned();
    let n = base.unicode_len();
    if n > 0 && base.get_char(n - 1) != '/' {
        push_char(&mut s, '/');
    }
    push_str(&mut s, comp);
    s
}

} // verus!
