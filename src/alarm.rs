//! What happens when the countdown completes: a sound is picked to play.
use vstd::prelude::*;
use crate::random::random_below;

verus! {

/// One of `sounds`, drawn at random; `None` where there is none to pick.
pub fn choose_sound(sounds: &Vec<String>) -> (r: Option<String>)
    ensures
        r is None <==> sounds@.len() == 0,
        r is Some ==> exists|i: int| 0 <= i < sounds@.len() && sounds@[i]@ == r->0@,
{
    if sounds.len() == 0 {
        return None;
    }
    let i = random_below(sounds.len());
    let s = sounds[i].clone();
    assert(sounds@[i as int]@ == s@);
    Some(s)
}

} // verus!
