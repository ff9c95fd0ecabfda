use spot::batch_loader::{next_query, page_fingerprint, page_loaded};
use spot::cached_client::ApiError;
use spot::state::{
    AppAction, AppEvent, AppModel, AppState, Batch, BatchQuery, Credentials, PlaylistChange,
    SelectionContext, SongBatch, SongDescription,
};

fn song(id: &str) -> SongDescription {
    SongDescription::new(id, &format!("title {}", id), "artist", &format!("uri:{}", id), 180)
}

fn model_with(ids: &[&str], current: Option<&str>) -> AppModel {
    let songs: Vec<SongDescription> = ids.iter().map(|id| song(id)).collect();
    let mut state = AppState::new(songs);
    state.current_song_id = current.map(|c| c.to_string());
    AppModel::new(state)
}

fn ids(model: &AppModel) -> Vec<String> {
    model.state.playlist.iter().map(|s| s.id.clone()).collect()
}

#[test]
fn song_description_new_keeps_fields() {
    let s = SongDescription::new("s1", "Song", "Band", "uri:1", 42);
    assert_eq!(s.id, "s1");
    assert_eq!(s.title, "Song");
    assert_eq!(s.artist, "Band");
    assert_eq!(s.uri, "uri:1");
    assert_eq!(s.duration, 42);
}

#[test]
fn app_state_new_starts_idle() {
    let state = AppState::new(vec![song("a")]);
    assert!(!state.is_playing);
    assert_eq!(state.current_song_id, None);
    assert_eq!(state.playlist.len(), 1);
    assert_eq!(state.pagination_cursor, None);
    assert_eq!(state.api_token, None);
}

#[test]
fn previous_moves_back_then_stops_at_first() {
    let mut m = model_with(&["s1", "s2", "s3"], Some("s2"));
    let events = m.dispatch(AppAction::Previous);
    assert_eq!(m.state.current_song_id.as_deref(), Some("s1"));
    assert!(m.state.is_playing);
    assert_eq!(events, vec![AppEvent::TrackChanged("s1".to_string())]);
    let before = m.state.clone();
    let events = m.dispatch(AppAction::Previous);
    assert_eq!(m.state.current_song_id.as_deref(), Some("s1"));
    assert_eq!(m.state, before);
    assert!(events.is_empty());
}

#[test]
fn next_on_last_song_changes_nothing() {
    let mut m = model_with(&["s1", "s2", "s3"], Some("s3"));
    let before = m.state.clone();
    let events = m.dispatch(AppAction::Next);
    assert_eq!(m.state, before);
    assert!(events.is_empty());
}

#[test]
fn next_with_absent_song_changes_nothing() {
    let mut m = model_with(&["s1", "s2"], Some("zz"));
    let before = m.state.clone();
    assert!(m.dispatch(AppAction::Next).is_empty());
    assert_eq!(m.state, before);
    assert!(m.dispatch(AppAction::Previous).is_empty());
    assert_eq!(m.state, before);
}

#[test]
fn next_without_current_song_changes_nothing() {
    let mut m = model_with(&["s1", "s2"], None);
    let before = m.state.clone();
    assert!(m.dispatch(AppAction::Next).is_empty());
    assert_eq!(m.state, before);
}

#[test]
fn next_moves_forward_and_plays() {
    let mut m = model_with(&["s1", "s2", "s3"], Some("s1"));
    let events = m.dispatch(AppAction::Next);
    assert_eq!(m.state.current_song_id.as_deref(), Some("s2"));
    assert!(m.state.is_playing);
    assert_eq!(events, vec![AppEvent::TrackChanged("s2".to_string())]);
}

#[test]
fn play_and_pause_set_playing() {
    let mut m = model_with(&["s1"], None);
    assert_eq!(m.dispatch(AppAction::Play), vec![AppEvent::PlaybackResumed]);
    assert!(m.state.is_playing);
    assert_eq!(m.dispatch(AppAction::Pause), vec![AppEvent::PlaybackPaused]);
    assert!(!m.state.is_playing);
}

#[test]
fn load_sets_current_and_plays() {
    let mut m = model_with(&["s1"], None);
    let events = m.update_state(&AppAction::Load("x9".to_string()));
    assert_eq!(m.state.current_song_id.as_deref(), Some("x9"));
    assert!(m.state.is_playing);
    assert_eq!(events, vec![AppEvent::TrackChanged("x9".to_string())]);
}

#[test]
fn load_playlist_replaces_and_resets() {
    let mut m = model_with(&["s1", "s2"], None);
    let events = m.dispatch(AppAction::LoadPlaylist(vec![song("t1")]));
    assert_eq!(ids(&m), vec!["t1".to_string()]);
    assert_eq!(events, vec![AppEvent::PlaylistChanged(PlaylistChange::Reset)]);
}

#[test]
fn paged_songs_append_and_advance_cursor() {
    let mut m = model_with(&[], None);
    let batch = Batch { offset: 0, batch_size: 2, total: 5 };
    let events = m.dispatch(AppAction::LoadPagedSongs(
        "queue".to_string(),
        SongBatch { songs: vec![song("a"), song("b")], batch },
    ));
    assert_eq!(ids(&m), vec!["a".to_string(), "b".to_string()]);
    assert_eq!(events, vec![AppEvent::PlaylistChanged(PlaylistChange::AppendedAt(0))]);
    assert_eq!(
        m.state.pagination_cursor,
        Some(BatchQuery { source: "queue".to_string(), batch: Batch { offset: 2, batch_size: 2, total: 5 } })
    );
    let events = m.dispatch(AppAction::LoadPagedSongs(
        "queue".to_string(),
        SongBatch { songs: vec![song("c")], batch: Batch { offset: 4, batch_size: 2, total: 5 } },
    ));
    assert_eq!(events, vec![AppEvent::PlaylistChanged(PlaylistChange::AppendedAt(2))]);
    assert_eq!(m.state.pagination_cursor, None);
}

#[test]
fn empty_page_emits_nothing() {
    let mut m = model_with(&["a"], None);
    let events = m.dispatch(AppAction::LoadPagedSongs(
        "queue".to_string(),
        SongBatch { songs: vec![], batch: Batch { offset: 0, batch_size: 10, total: 0 } },
    ));
    assert!(events.is_empty());
    assert_eq!(ids(&m), vec!["a".to_string()]);
}

#[test]
fn login_stores_token() {
    let mut m = model_with(&[], None);
    let events = m.dispatch(AppAction::LoginSuccess(Credentials {
        username: "u".to_string(),
        token: "SECRET-REDACTED".to_string(),
    }));
    assert_eq!(m.state.api_token.as_deref(), Some("SECRET-REDACTED"));
    assert_eq!(events, vec![AppEvent::LoginCompleted]);
}

#[test]
fn selection_actions_leave_app_state() {
    let mut m = model_with(&["a"], Some("a"));
    let before = m.state.clone();
    assert_eq!(m.dispatch(AppAction::Select(vec![song("a")])), vec![AppEvent::SelectionChanged]);
    assert_eq!(m.dispatch(AppAction::Deselect(vec!["a".to_string()])), vec![AppEvent::SelectionChanged]);
    assert_eq!(m.dispatch(AppAction::EnableSelection(SelectionContext::Queue)), vec![AppEvent::SelectionChanged]);
    assert_eq!(m.state, before);
}

#[test]
fn select_skips_songs_already_selected() {
    let mut m = model_with(&[], None);
    m.dispatch(AppAction::Select(vec![song("a"), song("b")]));
    m.dispatch(AppAction::Select(vec![song("b"), song("c"), song("c")]));
    let ids: Vec<String> = m.selection.selected.iter().map(|s| s.id.clone()).collect();
    assert_eq!(ids, vec!["a".to_string(), "b".to_string(), "c".to_string()]);
}

#[test]
fn deselect_drops_listed_ids() {
    let mut m = model_with(&[], None);
    m.dispatch(AppAction::Select(vec![song("a"), song("b"), song("c")]));
    m.dispatch(AppAction::Deselect(vec!["c".to_string(), "a".to_string(), "zz".to_string()]));
    let ids: Vec<String> = m.selection.selected.iter().map(|s| s.id.clone()).collect();
    assert_eq!(ids, vec!["b".to_string()]);
}

#[test]
fn enable_selection_starts_empty() {
    let mut m = model_with(&[], None);
    m.dispatch(AppAction::Select(vec![song("a")]));
    m.dispatch(AppAction::EnableSelection(SelectionContext::Album));
    assert_eq!(m.selection.context, Some(SelectionContext::Album));
    assert!(m.selection.selected.is_empty());
}

#[test]
fn batch_next_pages() {
    assert_eq!(
        Batch { offset: 0, batch_size: 20, total: 50 }.next(),
        Some(Batch { offset: 20, batch_size: 20, total: 50 })
    );
    assert_eq!(Batch { offset: 40, batch_size: 20, total: 50 }.next(), None);
    assert_eq!(Batch { offset: 30, batch_size: 20, total: 50 }.next(), None);
    assert_eq!(Batch { offset: 0, batch_size: 0, total: 50 }.next(), None);
    assert_eq!(Batch { offset: usize::MAX - 1, batch_size: 5, total: usize::MAX }.next(), None);
}

#[test]
fn next_query_reads_cursor() {
    let mut state = AppState::new(vec![]);
    assert_eq!(next_query(&state), None);
    let q = BatchQuery { source: "mix".to_string(), batch: Batch { offset: 3, batch_size: 3, total: 9 } };
    state.pagination_cursor = Some(q.clone());
    assert_eq!(next_query(&state), Some(q));
}

#[test]
fn page_loaded_builds_action_or_nothing() {
    let q = BatchQuery { source: "mix".to_string(), batch: Batch { offset: 0, batch_size: 1, total: 2 } };
    let page = SongBatch { songs: vec![song("a")], batch: q.batch };
    assert_eq!(
        page_loaded(&q, Ok(page.clone())),
        Some(AppAction::LoadPagedSongs("mix".to_string(), page))
    );
    assert_eq!(page_loaded(&q, Err(ApiError::Network)), None);
}

#[test]
fn page_fingerprint_names_source_and_page() {
    let q = BatchQuery { source: "queue".to_string(), batch: Batch { offset: 120, batch_size: 20, total: 500 } };
    assert_eq!(page_fingerprint(&q), "queue?offset=120&limit=20");
    let q = BatchQuery { source: "p".to_string(), batch: Batch { offset: 0, batch_size: 7, total: 9 } };
    assert_eq!(page_fingerprint(&q), "p?offset=0&limit=7");
}

#[test]
fn subscribers_register_and_leave() {
    let mut m = model_with(&[], None);
    assert_eq!(m.subscribe(), Some(0));
    assert_eq!(m.subscribe(), Some(1));
    assert_eq!(m.subscribe(), Some(2));
    m.unsubscribe(1);
    assert_eq!(m.subscribers, vec![0, 2]);
    m.unsubscribe(7);
    assert_eq!(m.subscribers, vec![0, 2]);
    assert_eq!(m.subscribe(), Some(3));
    assert_eq!(m.subscribers, vec![0, 2, 3]);
}

#[test]
fn subscribe_stops_when_handles_run_out() {
    let mut m = model_with(&[], None);
    m.next_subscriber = u64::MAX;
    assert_eq!(m.subscribe(), None);
    assert!(m.subscribers.is_empty());
}
