use cbr_alarm::alarm::choose_sound;
use cbr_alarm::music_player::{playlist_actions, track_actions, ActionItem, ActionType};

#[test]
fn items_keep_their_names() {
    let a = ActionItem::new("Connect to spotify", ActionType::ConnectToSpotify);
    assert_eq!(a.action_name, "Connect to spotify");
    assert_eq!(a.action_type, ActionType::ConnectToSpotify);
    let b = ActionItem::new_with_fucking_string("mix".to_string(), ActionType::Playlist(3));
    assert_eq!(b.action_name, "mix");
    assert_eq!(b.action_type, ActionType::Playlist(3));
}

#[test]
fn playlists_are_numbered_in_order() {
    let names = vec!["a".to_string(), "b".to_string(), "c".to_string()];
    let items = playlist_actions(&names);
    assert_eq!(items.len(), 3);
    for (i, item) in items.iter().enumerate() {
        assert_eq!(item.action_name, names[i]);
        assert_eq!(item.action_type, ActionType::Playlist(i));
    }
}

#[test]
fn only_tracks_get_entries_and_keep_their_position() {
    let tracks = vec![
        Some("one".to_string()),
        None,
        Some("three".to_string()),
        None,
    ];
    let items = track_actions(tracks);
    assert_eq!(items.len(), 2);
    assert_eq!(items[0].action_name, "one");
    assert_eq!(items[0].action_type, ActionType::Track(0));
    assert_eq!(items[1].action_name, "three");
    assert_eq!(items[1].action_type, ActionType::Track(2));
    assert!(track_actions(vec![None, None]).is_empty());
}

#[test]
fn a_sound_is_picked_among_those_given() {
    let sounds = vec!["bell.mp3".to_string(), "gong.mp3".to_string(), "horn.mp3".to_string()];
    for _ in 0..50 {
        let s = choose_sound(&sounds).unwrap();
        assert!(sounds.contains(&s));
    }
    let one = vec!["only.wav".to_string()];
    assert_eq!(choose_sound(&one), Some("only.wav".to_string()));
    assert_eq!(choose_sound(&Vec::new()), None);
}
