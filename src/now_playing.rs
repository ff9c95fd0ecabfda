use vstd::prelude::*;
use crate::batch_loader::next_query;
use crate::diff::{ListDiff, diff_for_event, diff_spec};
use crate::state::{
    AppAction, AppEvent, AppModel, AppStateView, BatchQuery, SelectionContext, SelectionState,
    SongDescription,
    events_of, position_in, position_of,
};

verus! {

/// The play queue as a list view sees it.
pub struct NowPlayingModel {
    pub app_model: AppModel,
}

impl NowPlayingModel {
    pub fn new(app_model: AppModel) -> (r: Self)
        ensures
            r.app_model == app_model,
    {
        NowPlayingModel { app_model }
    }

    /// The page of the queue to fetch next, if there is one.
    pub fn load_more(&self) -> (r: Option<BatchQuery>)
        ensures
            r == self.app_model.state.pagination_cursor,
    {
        next_query(&self.app_model.state)
    }

    pub fn current_song_id(&self) -> (r: Option<String>)
        ensures
            r == self.app_model.state.current_song_id,
    {
        match &self.app_model.state.current_song_id {
            Some(id) => Some(id.clone()),
            None => None,
        }
    }

    /// Plays the song `id` of the queue.
    pub fn play_song_at(&mut self, _pos: usize, id: &str) -> (events: Vec<AppEvent>)
        ensures
            final(self).app_model.state@.current_song_id matches Some(c) && c@ == id@,
            final(self).app_model.state@ == (AppStateView {
                is_playing: true,
                current_song_id: final(self).app_model.state@.current_song_id,
                ..old(self).app_model.state@
            }),
            events@.len() == 1,
            events@[0] matches AppEvent::TrackChanged(c) && c@ == id@,
    {
        let action = AppAction::Load(id.to_owned());
        let ghost a = action;
        let events = self.app_model.dispatch(action);
        assert(events@ == events_of(old(self).app_model.state@, a));
        events
    }

    /// The edit that the queue's view applies for `event`.
    pub fn diff_for_event(&self, event: &AppEvent) -> (r: Option<ListDiff>)
        ensures
            match event {
                AppEvent::PlaylistChanged(c) => r matches Some(d) && d@ == diff_spec(
                    *c,
                    self.app_model.state.playlist@,
                ),
                _ => r is None,
            },
    {
        diff_for_event(event, &self.app_model.state.playlist)
    }

    pub fn autoscroll_to_playing(&self) -> (r: bool)
        ensures
            r,
    {
        true
    }

    /// Selects the song `id`, if the queue holds it.
    pub fn select_song(&self, id: &str) -> (r: Option<AppAction>)
        ensures
            match position_of(self.app_model.state.playlist@, id@) {
                Some(i) => r matches Some(AppAction::Select(v)) && v@ == seq![
                    self.app_model.state.playlist@[i],
                ],
                None => r is None,
            },
    {
        let key = id.to_owned();
        match position_in(&self.app_model.state.playlist, &key) {
            Some(i) => Some(AppAction::Select(vec![self.app_model.state.playlist[i].duplicate()])),
            None => None,
        }
    }

    pub fn deselect_song(&self, id: &str) -> (r: AppAction)
        ensures
            r matches AppAction::Deselect(v) && v@.len() == 1 && v@[0]@ == id@,
    {
        AppAction::Deselect(vec![id.to_owned()])
    }

    pub fn enable_selection(&self) -> (r: AppAction)
        ensures
            r == AppAction::EnableSelection(SelectionContext::Queue),
    {
        AppAction::EnableSelection(SelectionContext::Queue)
    }

    /// The songs picked out so far.
    pub fn selection(&self) -> (r: &SelectionState)
        ensures
            *r == self.app_model.selection,
    {
        &self.app_model.selection
    }

    pub fn selection_context(&self) -> (r: SelectionContext)
        ensures
            r == SelectionContext::Queue,
    {
        SelectionContext::Queue
    }

    /// Selects every song of the queue.
    pub fn select_all(&self) -> (r: AppAction)
        ensures
            r matches AppAction::Select(v) && v@ == self.app_model.state.playlist@,
    {
        let songs = &self.app_model.state.playlist;
        let mut all: Vec<SongDescription> = Vec::new();
        let mut i: usize = 0;
        while i < songs.len()
            invariant
                0 <= i <= songs@.len(),
                all@ == songs@.subrange(0, i as int),
            decreases songs@.len() - i,
        {
            all.push(songs[i].duplicate());
            i += 1;
        }
        assert(all@ == songs@);
        AppAction::Select(all)
    }
}

} // verus!
