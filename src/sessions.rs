use vstd::prelude::*;

verus! {

/// How many sessions a user keeps.
pub const MAX_SESSIONS: usize = 7;

/// When a user holds sessions expiring at `expiries` (milliseconds since the
/// epoch), the position of the one to drop: none while at most
/// `MAX_SESSIONS` are held, else the first of those that expire earliest.
pub fn session_to_evict(expiries: &Vec<i64>) -> (r: Option<usize>)
    ensures
        match r {
            None => expiries@.len() <= MAX_SESSIONS,
            Some(i) => {
                &&& expiries@.len() > MAX_SESSIONS
                &&& i < expiries@.len()
                &&& forall|j: int| 0 <= j < expiries@.len() ==> expiries@[i as int] <= expiries@[j]
                &&& forall|j: int| 0 <= j < i ==> expiries@[j] > expiries@[i as int]
            },
        },
{
    if expiries.len() <= MAX_SESSIONS {
        return None;
    }
    let mut best: usize = 0;
    let mut k: usize = 1;
    while k < expiries.len()
        invariant
            1 <= k <= expiries@.len(),
            best < k,
            forall|j: int| 0 <= j < k ==> expiries@[best as int] <= expiries@[j],
            forall|j: int| 0 <= j < best ==> expiries@[j] > expiries@[best as int],
        decreases expiries.len() - k,
    {
        if expiries[k] < expiries[best] {
            best = k;
        }
        k = k + 1;
    }
    Some(best)
}

} // verus!
