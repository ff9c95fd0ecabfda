use spot::diff::ListDiff;
use spot::now_playing::NowPlayingModel;
use spot::playback::{playback_image, playback_update_for, PlaybackUpdate};
use spot::state::{
    AppAction, AppEvent, AppModel, AppState, Batch, BatchQuery, PlaylistChange, SelectionContext,
    SongDescription,
};

fn song(id: &str) -> SongDescription {
    SongDescription::new(id, id, "artist", id, 1)
}

fn model(ids: &[&str]) -> NowPlayingModel {
    let songs = ids.iter().map(|id| song(id)).collect();
    NowPlayingModel::new(AppModel::new(AppState::new(songs)))
}

#[test]
fn play_song_at_loads_the_song() {
    let mut m = model(&["a", "b"]);
    let events = m.play_song_at(1, "b");
    assert_eq!(m.current_song_id().as_deref(), Some("b"));
    assert!(m.app_model.state.is_playing);
    assert_eq!(events, vec![AppEvent::TrackChanged("b".to_string())]);
}

#[test]
fn load_more_hands_out_the_cursor() {
    let mut m = model(&[]);
    assert_eq!(m.load_more(), None);
    let q = BatchQuery { source: "queue".to_string(), batch: Batch { offset: 10, batch_size: 10, total: 30 } };
    m.app_model.state.pagination_cursor = Some(q.clone());
    assert_eq!(m.load_more(), Some(q));
}

#[test]
fn queue_diff_follows_events() {
    let m = model(&["a", "b", "c"]);
    assert_eq!(
        m.diff_for_event(&AppEvent::PlaylistChanged(PlaylistChange::InsertedAt(1, 1))),
        Some(ListDiff::Insert(1, vec![song("b")]))
    );
    assert_eq!(m.diff_for_event(&AppEvent::LoginCompleted), None);
    assert!(m.autoscroll_to_playing());
}

#[test]
fn select_song_finds_it_in_queue() {
    let m = model(&["a", "b"]);
    assert_eq!(m.select_song("b"), Some(AppAction::Select(vec![song("b")])));
    assert_eq!(m.select_song("z"), None);
}

#[test]
fn selection_actions() {
    let m = model(&["a", "b"]);
    assert_eq!(m.deselect_song("a"), AppAction::Deselect(vec!["a".to_string()]));
    assert_eq!(m.enable_selection(), AppAction::EnableSelection(SelectionContext::Queue));
    assert_eq!(m.selection_context(), SelectionContext::Queue);
    assert_eq!(m.select_all(), AppAction::Select(vec![song("a"), song("b")]));
}

#[test]
fn playback_icons() {
    assert_eq!(playback_image(true), "media-playback-pause");
    assert_eq!(playback_image(false), "media-playback-start");
}

#[test]
fn playback_updates_per_action() {
    assert_eq!(playback_update_for(&AppAction::Play), PlaybackUpdate { update_info: false, update_playing: true });
    assert_eq!(playback_update_for(&AppAction::Pause), PlaybackUpdate { update_info: false, update_playing: true });
    assert_eq!(playback_update_for(&AppAction::Next), PlaybackUpdate { update_info: true, update_playing: true });
    assert_eq!(
        playback_update_for(&AppAction::Load("x".to_string())),
        PlaybackUpdate { update_info: true, update_playing: true }
    );
    assert_eq!(
        playback_update_for(&AppAction::LoadPlaylist(vec![])),
        PlaybackUpdate { update_info: false, update_playing: false }
    );
}
