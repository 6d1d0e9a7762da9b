//! The admin dashboard's counts.

use vstd::prelude::*;
use crate::domain::Post;
use crate::text::str_eq;

verus! {

broadcast use vstd::string::group_string_axioms;

/// How many of `posts` have the status `status`.
pub open spec fn posts_with_status(posts: Seq<Post>, status: Seq<char>) -> nat
    decreases posts.len(),
{
    if posts.len() == 0 {
        0
    } else {
        posts_with_status(posts.drop_last(), status) + if posts.last().status@ == status {
            1nat
        } else {
            0nat
        }
    }
}

/// Counts the posts with the given status.
pub fn count_with_status(posts: &Vec<Post>, status: &str) -> (r: usize)
    ensures
        r == posts_with_status(posts@, status@),
{
    let mut n: usize = 0;
    let mut i: usize = 0;
    while i < posts.len()
        invariant
            i <= posts.len(),
            n == posts_with_status(posts@.take(i as int), status@),
            n <= i,
        decreases posts.len() - i,
    {
        proof {
            let t = posts@.take(i + 1);
            assert(t.drop_last() =~= posts@.take(i as int));
            assert(t.last() == posts@[i as int]);
        }
        if str_eq(posts[i].status.as_str(), status) {
            n += 1;
        }
        i += 1;
    }
    assert(posts@.take(posts.len() as int) =~= posts@);
    n
}

} // verus!
