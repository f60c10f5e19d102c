//! The entries of the music player's action list.
use vstd::prelude::*;
use vstd::string::*;

verus! {

/// What choosing an entry does.
#[derive(Clone, Copy, Debug, PartialEq, Eq, Structural)]
pub enum ActionType {
    ConnectToSpotify,
    /// Open the playlist at this position of the user's playlists.
    Playlist(usize),
    /// The track at this position of the playlist.
    Track(usize),
}

/// An entry of the action list.
pub struct ActionItem {
    pub action_name: String,
    pub action_type: ActionType,
}

impl ActionItem {
    pub fn new(action_name: &str, act_type: ActionType) -> (r: ActionItem)
        ensures
            r.action_name@ == action_name@,
            r.action_type == act_type,
    {
        ActionItem { action_name: String::from_str(action_name), action_type: act_type }
    }

    pub fn new_with_fucking_string(action_name: String, act_type: ActionType) -> (r: ActionItem)
        ensures
            r.action_name@ == action_name@,
            r.action_type == act_type,
    {
        ActionItem { action_name, action_type: act_type }
    }
}

/// The entries that open each of the user's playlists, by name.
pub fn playlist_actions(names: &Vec<String>) -> (r: Vec<ActionItem>)
    ensures
        r@.len() == names@.len(),
        forall|i: int|
            0 <= i < names@.len() ==> (#[trigger] r@[i]).action_name@ == names@[i]@
                && r@[i].action_type == ActionType::Playlist(i as usize),
{
    let mut items: Vec<ActionItem> = Vec::new();
    let mut i: usize = 0;
    while i < names.len()
        invariant
            i <= names@.len(),
            items@.len() == i,
            forall|j: int|
                0 <= j < i ==> (#[trigger] items@[j]).action_name@ == names@[j]@
                    && items@[j].action_type == ActionType::Playlist(j as usize),
        decreases names@.len() - i,
    {
        items.push(ActionItem::new_with_fucking_string(names[i].clone(), ActionType::Playlist(i)));
        i = i + 1;
    }
    items
}

/// The entries for the tracks of a playlist, by name; items that are not
/// tracks (`None`) get no entry, and each entry keeps its item's position.
pub fn track_actions(tracks: Vec<Option<String>>) -> (r: Vec<ActionItem>)
    ensures
        r@.len() <= tracks@.len(),
        forall|k: int|
            0 <= k < r@.len() ==> ({
                let i = (#[trigger] r@[k]).action_type->Track_0 as int;
                &&& r@[k].action_type is Track
                &&& 0 <= i < tracks@.len()
                &&& tracks@[i] is Some
                &&& r@[k].action_name@ == tracks@[i]->0@
            }),
        forall|k1: int, k2: int|
            0 <= k1 < k2 < r@.len() ==> (#[trigger] r@[k1]).action_type->Track_0 < (
            #[trigger] r@[k2]).action_type->Track_0,
        forall|i: int|
            0 <= i < tracks@.len() && (#[trigger] tracks@[i]) is Some ==> exists|k: int|
                0 <= k < r@.len() && r@[k].action_type == ActionType::Track(i as usize),
{
    let mut items: Vec<ActionItem> = Vec::new();
    let mut i: usize = 0;
    while i < tracks.len()
        invariant
            i <= tracks@.len(),
            items@.len() <= i,
            forall|k: int|
                0 <= k < items@.len() ==> ({
                    let j = (#[trigger] items@[k]).action_type->Track_0 as int;
                    &&& items@[k].action_type is Track
                    &&& 0 <= j < i
                    &&& tracks@[j] is Some
                    &&& items@[k].action_name@ == tracks@[j]->0@
                }),
            forall|k1: int, k2: int|
                0 <= k1 < k2 < items@.len() ==> (#[trigger] items@[k1]).action_type->Track_0 < (
                #[trigger] items@[k2]).action_type->Track_0,
            forall|j: int|
                0 <= j < i && (#[trigger] tracks@[j]) is Some ==> exists|k: int|
                    0 <= k < items@.len() && items@[k].action_type == ActionType::Track(j as usize),
        decreases tracks@.len() - i,
    {
        match &tracks[i] {
            Some(name) => {
                let ghost before = items@;
                items.push(ActionItem::new(name.as_str(), ActionType::Track(i)));
                assert forall|j: int|
                    0 <= j <= i && (#[trigger] tracks@[j]) is Some implies exists|k: int|
                        0 <= k < items@.len() && items@[k].action_type == ActionType::Track(
                            j as usize,
                        ) by {
                    if j < i {
                        let k = choose|k: int|
                            0 <= k < before.len() && before[k].action_type == ActionType::Track(
                                j as usize,
                            );
                        assert(items@[k] == before[k]);
                    } else {
                        assert(items@[items@.len() - 1].action_type == ActionType::Track(j as usize));
                    }
                }
            },
            None => {},
        }
        i = i + 1;
    }
    items
}

} // verus!
