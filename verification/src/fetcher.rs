//! The fetcher's client identity: a fixed pool of plausible browser
//! identities, one picked uniformly at random per retrieval.

use crate::schedule::random_below;
use vstd::prelude::*;

verus! {

/// The fixed pool of client identities, in order.
pub open spec fn spec_user_agents() -> Seq<Seq<char>> {
    seq![
        "Mozilla/5.0 (Windows NT 10.0; Win64; x64)"@,
        "Mozilla/5.0 (Macintosh; Intel Mac OS X 10_15_7)"@,
        "Mozilla/5.0 (X11; Linux x86_64)"@,
        "Mozilla/5.0 (iPhone; CPU iPhone OS 14_0 like Mac OS X)"@,
    ]
}

/// The pool of client identities the fetcher draws from.
pub fn user_agent_pool() -> (r: Vec<String>)
    ensures
        r@.len() == spec_user_agents().len(),
        forall|i: int| 0 <= i < r@.len() ==> r@[i]@ == spec_user_agents()[i],
{
    let mut v: Vec<String> = Vec::new();
    v.push("Mozilla/5.0 (Windows NT 10.0; Win64; x64)".to_owned());
    v.push("Mozilla/5.0 (Macintosh; Intel Mac OS X 10_15_7)".to_owned());
    v.push("Mozilla/5.0 (X11; Linux x86_64)".to_owned());
    v.push("Mozilla/5.0 (iPhone; CPU iPhone OS 14_0 like Mac OS X)".to_owned());
    v
}

/// Pick one client identity uniformly at random from the fixed pool.
pub fn pick_user_agent() -> (r: String)
    ensures
        exists|i: int| 0 <= i < spec_user_agents().len() && r@ == spec_user_agents()[i],
{
    let mut pool = user_agent_pool();
    let idx = random_below(pool.len() as u64) as usize;
    pool.remove(idx)
}

} // verus!
