//! Decisions of the motherlist selection flow.
//!
//! The console menu lists the user's playlists, numbered from 1, followed by
//! one extra entry for the liked-songs library.  The plumbing that prints
//! the menu and reads input lives outside the library; what the input means
//! is decided here.

use vstd::prelude::*;

use crate::misc_helpers::NO_DATE_SENTINEL;

verus! {

/// Which source the user chose as the motherlist.
#[derive(Clone, Copy, PartialEq, Eq, Structural, Debug)]
pub enum PlaylistChoice {
    /// The playlist at this position (0-based) of the user's playlist list.
    Playlist(usize),
    /// The liked-songs library.
    LikedSongs,
}

/// Interprets one parsed playlist-menu input against a menu of
/// `n_playlists` playlists followed by the liked-songs entry.  A number in
/// `[1, n]` names that playlist, `n + 1` names liked songs, and anything
/// else is rejected for a re-prompt.
pub fn interpret_playlist_selection(selection: i64, n_playlists: usize) -> (r: Option<
    PlaylistChoice,
>)
    ensures
        r is Some <==> 1 <= selection <= n_playlists + 1,
        1 <= selection <= n_playlists ==> r == Some(
            PlaylistChoice::Playlist((selection - 1) as usize),
        ),
        selection == n_playlists + 1 ==> r == Some(PlaylistChoice::LikedSongs),
{
    if selection < 1 {
        return None;
    }
    let s = selection as u64;
    if s <= n_playlists as u64 {
        Some(PlaylistChoice::Playlist((s - 1) as usize))
    } else if s - 1 == n_playlists as u64 {
        Some(PlaylistChoice::LikedSongs)
    } else {
        None
    }
}

/// The added-at instant of a playlist entry, or the far-past sentinel where
/// the provider reported none.
pub fn resolve_added_at(added_at: Option<i64>) -> (r: i64)
    ensures
        r == match added_at {
            Some(t) => t,
            None => NO_DATE_SENTINEL,
        },
{
    match added_at {
        Some(t) => t,
        None => NO_DATE_SENTINEL,
    }
}

} // verus!

