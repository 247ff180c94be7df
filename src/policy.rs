//! Action selection: the forced block during training, exploration, and
//! greedy exploitation of learned values.
use rand::prelude::IndexedRandom;
use vstd::prelude::*;

verus! {

/// `r` is the last index of a maximal key.
pub open spec fn is_last_max(keys: Seq<u64>, r: int) -> bool {
    &&& 0 <= r < keys.len()
    &&& forall|i: int| 0 <= i < keys.len() ==> keys[i] <= keys[r]
    &&& forall|i: int| r < i < keys.len() ==> keys[i] < keys[r]
}

/// The index of the greatest key; among equal greatest keys, the last.
pub fn greedy_index(keys: &Vec<u64>) -> (r: usize)
    requires
        keys@.len() > 0,
    ensures
        is_last_max(keys@, r as int),
{
    let mut best: usize = 0;
    let mut i: usize = 1;
    while i < keys.len()
        invariant
            1 <= i <= keys@.len(),
            is_last_max(keys@.subrange(0, i as int), best as int),
        decreases keys@.len() - i,
    {
        if keys[i] >= keys[best] {
            best = i;
        }
        i = i + 1;
    }
    assert(keys@.subrange(0, keys@.len() as int) =~= keys@);
    best
}

/// Relies on rand's `IndexedRandom::choose`: on a non-empty slice it returns
/// one of its elements, drawn uniformly.
#[verifier::external_body]
fn random_move(moves: &Vec<(usize, usize)>) -> (r: Option<(usize, usize)>)
    ensures
        moves@.len() > 0 ==> r is Some && moves@.contains(r->0),
{
    moves.choose(&mut rand::rng()).copied()
}

/// Chooses the next action among the legal `moves`. Returns the action,
/// whether it was a forced block, and whether it was an exploratory pick.
///
/// - In training mode, an existing `blocking` move is always taken.
/// - Otherwise, in training mode, when the exploration draw came out below
///   epsilon (`explore`), a uniformly random legal move is taken.
/// - Otherwise, when the table holds entries for the state, `values` holds
///   one order key per move (a greater key for a greater learned value) and
///   the move with the greatest key is taken, the last one among equals.
/// - Otherwise (`values` is `None`) a uniformly random legal move is taken.
pub fn choose_action(
    moves: &Vec<(usize, usize)>,
    blocking: Option<(usize, usize)>,
    train: bool,
    explore: bool,
    values: Option<Vec<u64>>,
) -> (r: ((usize, usize), bool, bool))
    requires
        moves@.len() > 0,
        values matches Some(v) ==> v@.len() == moves@.len(),
    ensures
        blocking is Some && train ==> r == (blocking->0, true, false),
        !(blocking is Some && train) && train && explore ==> moves@.contains(r.0) && !r.1 && r.2,
        !(blocking is Some && train) && !(train && explore) ==> {
            &&& !r.1
            &&& !r.2
            &&& values matches Some(v) ==> exists|k: int|
                is_last_max(v@, k) && r.0 == moves@[k]
            &&& values is None ==> moves@.contains(r.0)
        },
{
    if blocking.is_some() && train {
        (blocking.unwrap(), true, false)
    } else if explore && train {
        let m = random_move(moves);
        (m.unwrap(), false, true)
    } else {
        match values {
            Some(v) => {
                let k = greedy_index(&v);
                (moves[k], false, false)
            },
            None => {
                let m = random_move(moves);
                (m.unwrap(), false, false)
            },
        }
    }
}

} // verus!
