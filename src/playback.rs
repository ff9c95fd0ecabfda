use vstd::prelude::*;
use crate::state::AppAction;

verus! {

/// The icon of the play button: pause while playing, start otherwise.
pub fn playback_image(is_playing: bool) -> (r: &'static str)
    ensures
        is_playing ==> r@ == "media-playback-pause"@,
        !is_playing ==> r@ == "media-playback-start"@,
{
    if is_playing {
        "media-playback-pause"
    } else {
        "media-playback-start"
    }
}

/// What the playback bar refreshes after an action.
#[derive(Clone, Copy, Debug, PartialEq, Eq, Structural)]
pub struct PlaybackUpdate {
    /// The title, artist and seek range of the current song.
    pub update_info: bool,
    /// The play button's icon and the seek timer.
    pub update_playing: bool,
}

/// Play and pause refresh the button; a change of song refreshes the song's
/// details and then the button; other actions refresh nothing.
pub fn playback_update_for(action: &AppAction) -> (r: PlaybackUpdate)
    ensures
        r.update_info == (action is Load || action is Previous || action is Next),
        r.update_playing == (action is Play || action is Pause || action is Load || action is Previous
            || action is Next),
{
    match action {
        AppAction::Play | AppAction::Pause => PlaybackUpdate { update_info: false, update_playing: true },
        AppAction::Load(_) | AppAction::Previous | AppAction::Next => PlaybackUpdate {
            update_info: true,
            update_playing: true,
        },
        _ => PlaybackUpdate { update_info: false, update_playing: false },
    }
}

} // verus!
