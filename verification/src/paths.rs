//! Paths as text.

use crate::text::{chars_of, concat2, concat3};
use vstd::prelude::*;

verus! {

pub open spec fn is_absolute(path: Seq<char>) -> bool {
    path.len() > 0 && path[0] == '/'
}

pub fn absolute(path: &str) -> (yes: bool)
    ensures
        yes == is_absolute(path@),
{
    let chars = chars_of(path);
    chars.len() > 0 && chars[0] == '/'
}

/// `name` in `directory`.
pub open spec fn inside(directory: Seq<char>, name: Seq<char>) -> Seq<char> {
    if directory.len() > 0 && directory.last() != '/' {
        directory + "/"@ + name
    } else {
        directory + name
    }
}

pub fn join_path(directory: &str, name: &str) -> (path: String)
    ensures
        path@ == inside(directory@, name@),
{
    let chars = chars_of(directory);
    if chars.len() > 0 && chars[chars.len() - 1] != '/' {
        concat3(directory, "/", name)
    } else {
        concat2(directory, name)
    }
}

} // verus!
