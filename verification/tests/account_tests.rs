use track_classification::account::{interpret_playlist_selection, resolve_added_at, PlaylistChoice};
use track_classification::dataset::{split_for_label, Split};
use track_classification::misc_helpers::NO_DATE_SENTINEL;

#[test]
fn menu_numbers_name_playlists() {
    assert_eq!(interpret_playlist_selection(1, 3), Some(PlaylistChoice::Playlist(0)));
    assert_eq!(interpret_playlist_selection(3, 3), Some(PlaylistChoice::Playlist(2)));
}

#[test]
fn last_menu_entry_is_liked_songs() {
    assert_eq!(interpret_playlist_selection(4, 3), Some(PlaylistChoice::LikedSongs));
    assert_eq!(interpret_playlist_selection(1, 0), Some(PlaylistChoice::LikedSongs));
}

#[test]
fn out_of_menu_numbers_are_rejected() {
    assert_eq!(interpret_playlist_selection(0, 3), None);
    assert_eq!(interpret_playlist_selection(-2, 3), None);
    assert_eq!(interpret_playlist_selection(5, 3), None);
}

#[test]
fn missing_added_at_maps_to_sentinel() {
    assert_eq!(resolve_added_at(Some(123)), 123);
    assert_eq!(resolve_added_at(None), NO_DATE_SENTINEL);
}

#[test]
fn labels_decide_split_tags() {
    assert_eq!(split_for_label(Some(1)), Split::Train);
    assert_eq!(split_for_label(None), Split::Test);
    assert_eq!(Split::Train.tag(), "train");
    assert_eq!(Split::Test.tag(), "test");
}
