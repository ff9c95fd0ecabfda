use vstd::prelude::*;

verus! {

/// A song as the catalog describes it. Songs are told apart by `id`.
#[derive(Clone, Debug, PartialEq, Eq)]
pub struct SongDescription {
    pub id: String,
    pub title: String,
    pub artist: String,
    pub uri: String,
    pub duration: i64,
}

impl SongDescription {
    pub fn new(id: &str, title: &str, artist: &str, uri: &str, duration: i64) -> (r: Self)
        ensures
            r.id@ == id@,
            r.title@ == title@,
            r.artist@ == artist@,
            r.uri@ == uri@,
            r.duration == duration,
    {
        SongDescription {
            id: id.to_owned(),
            title: title.to_owned(),
            artist: artist.to_owned(),
            uri: uri.to_owned(),
            duration,
        }
    }

    /// A field-by-field copy.
    pub fn duplicate(&self) -> (r: Self)
        ensures
            r == *self,
    {
        SongDescription {
            id: self.id.clone(),
            title: self.title.clone(),
            artist: self.artist.clone(),
            uri: self.uri.clone(),
            duration: self.duration,
        }
    }
}


/// One page of a paged listing: where it starts, how many items it asks for,
/// and how many items the whole listing holds.
#[derive(Clone, Copy, Debug, PartialEq, Eq, Structural)]
pub struct Batch {
    pub offset: usize,
    pub batch_size: usize,
    pub total: usize,
}

impl Batch {
    /// The page that follows this one, if the listing goes on past it.
    pub open spec fn next_spec(self) -> Option<Batch> {
        if self.batch_size > 0 && self.offset + self.batch_size < self.total {
            Some(Batch { offset: (self.offset + self.batch_size) as usize, ..self })
        } else {
            None
        }
    }

    pub fn next(&self) -> (r: Option<Batch>)
        ensures
            r == self.next_spec(),
    {
        if self.batch_size > 0 && self.offset < self.total && self.total - self.offset
            > self.batch_size {
            Some(Batch { offset: self.offset + self.batch_size, batch_size: self.batch_size, total: self.total })
        } else {
            None
        }
    }
}

/// A page of songs as the catalog returned it, with the page it answers.
#[derive(Clone, Debug, PartialEq, Eq)]
pub struct SongBatch {
    pub songs: Vec<SongDescription>,
    pub batch: Batch,
}

/// The next page to fetch of a listing: the listing's source and the page.
#[derive(Clone, Debug, PartialEq, Eq)]
pub struct BatchQuery {
    pub source: String,
    pub batch: Batch,
}

/// The cursor that follows a page of `source`.
pub open spec fn cursor_after(source: String, batch: Batch) -> Option<BatchQuery> {
    match batch.next_spec() {
        Some(b) => Some(BatchQuery { source, batch: b }),
        None => None,
    }
}

#[derive(Clone, Debug, PartialEq, Eq)]
pub struct Credentials {
    pub username: String,
    pub token: String,
}

#[derive(Clone, Copy, Debug, PartialEq, Eq, Structural)]
pub enum SelectionContext {
    Queue,
    Playlist,
    Album,
}

#[derive(Clone, Debug, PartialEq, Eq)]
pub enum AppAction {
    Play,
    Pause,
    Next,
    Previous,
    Load(String),
    LoadPlaylist(Vec<SongDescription>),
    LoadPagedSongs(String, SongBatch),
    LoginSuccess(Credentials),
    Select(Vec<SongDescription>),
    Deselect(Vec<String>),
    EnableSelection(SelectionContext),
}

/// How the playlist changed in one reduction.
#[derive(Clone, Copy, Debug, PartialEq, Eq, Structural)]
pub enum PlaylistChange {
    Reset,
    InsertedAt(usize, usize),
    AppendedAt(usize),
    MovedUp(usize),
    MovedDown(usize),
}

/// What subscribers are told after a reduction.
#[derive(Clone, Debug, PartialEq, Eq)]
pub enum AppEvent {
    PlaylistChanged(PlaylistChange),
    TrackChanged(String),
    PlaybackResumed,
    PlaybackPaused,
    LoginCompleted,
    SelectionChanged,
}

#[derive(Clone, Debug, PartialEq, Eq)]
pub struct AppState {
    pub is_playing: bool,
    pub current_song_id: Option<String>,
    pub playlist: Vec<SongDescription>,
    pub pagination_cursor: Option<BatchQuery>,
    pub api_token: Option<String>,
}

/// The state as a mathematical value: the playlist becomes a sequence.
pub struct AppStateView {
    pub is_playing: bool,
    pub current_song_id: Option<String>,
    pub playlist: Seq<SongDescription>,
    pub pagination_cursor: Option<BatchQuery>,
    pub api_token: Option<String>,
}

impl View for AppState {
    type V = AppStateView;

    open spec fn view(&self) -> AppStateView {
        AppStateView {
            is_playing: self.is_playing,
            current_song_id: self.current_song_id,
            playlist: self.playlist@,
            pagination_cursor: self.pagination_cursor,
            api_token: self.api_token,
        }
    }
}

impl AppState {
    pub fn new(songs: Vec<SongDescription>) -> (r: Self)
        ensures
            r@ == (AppStateView {
                is_playing: false,
                current_song_id: None,
                playlist: songs@,
                pagination_cursor: None,
                api_token: None,
            }),
    {
        AppState {
            is_playing: false,
            current_song_id: None,
            playlist: songs,
            pagination_cursor: None,
            api_token: None,
        }
    }
}

/// `i` is the first position of `songs` that holds the song `id`.
pub open spec fn is_first_index(songs: Seq<SongDescription>, id: Seq<char>, i: int) -> bool {
    &&& 0 <= i < songs.len()
    &&& songs[i].id@ == id
    &&& forall|j: int| 0 <= j < i ==> #[trigger] songs[j].id@ != id
}

/// Where the song `id` first stands in `songs`, if it is there.
pub open spec fn position_of(songs: Seq<SongDescription>, id: Seq<char>) -> Option<int> {
    if exists|i: int| is_first_index(songs, id, i) {
        Some(choose|i: int| is_first_index(songs, id, i))
    } else {
        None
    }
}

pub proof fn lemma_position_of_first(songs: Seq<SongDescription>, id: Seq<char>, i: int)
    requires
        is_first_index(songs, id, i),
    ensures
        position_of(songs, id) == Some(i),
{
    let c = choose|c: int| is_first_index(songs, id, c);
    assert(is_first_index(songs, id, c));
    if c < i {
        assert(songs[c].id@ != id);
    } else if c > i {
        assert(songs[i].id@ != id);
    }
}

/// Where the current song first stands in the playlist.
pub open spec fn current_position_of(s: AppStateView) -> Option<int> {
    match s.current_song_id {
        Some(id) => position_of(s.playlist, id@),
        None => None,
    }
}

/// The song after the current one, if the current song is in the playlist and not last.
pub open spec fn next_song_of(s: AppStateView) -> Option<SongDescription> {
    match s.current_song_id {
        Some(id) => match position_of(s.playlist, id@) {
            Some(i) => if i + 1 < s.playlist.len() {
                Some(s.playlist[i + 1])
            } else {
                None
            },
            None => None,
        },
        None => None,
    }
}

/// The song before the current one, if the current song is in the playlist and not first.
pub open spec fn prev_song_of(s: AppStateView) -> Option<SongDescription> {
    match s.current_song_id {
        Some(id) => match position_of(s.playlist, id@) {
            Some(i) => if i > 0 {
                Some(s.playlist[i - 1])
            } else {
                None
            },
            None => None,
        },
        None => None,
    }
}

/// Moves to `song` and plays it.
pub open spec fn play_song(s: AppStateView, song: Option<SongDescription>) -> AppStateView {
    match song {
        Some(x) => AppStateView { is_playing: true, current_song_id: Some(x.id), ..s },
        None => s,
    }
}

/// The state that follows `s` when `a` is applied to it.
pub open spec fn reduce(s: AppStateView, a: AppAction) -> AppStateView {
    match a {
        AppAction::Play => AppStateView { is_playing: true, ..s },
        AppAction::Pause => AppStateView { is_playing: false, ..s },
        AppAction::Next => play_song(s, next_song_of(s)),
        AppAction::Previous => play_song(s, prev_song_of(s)),
        AppAction::Load(id) => AppStateView { is_playing: true, current_song_id: Some(id), ..s },
        AppAction::LoadPlaylist(songs) => AppStateView { playlist: songs@, ..s },
        AppAction::LoadPagedSongs(source, b) => AppStateView {
            playlist: s.playlist + b.songs@,
            pagination_cursor: cursor_after(source, b.batch),
            ..s
        },
        AppAction::LoginSuccess(c) => AppStateView { api_token: Some(c.token), ..s },
        _ => s,
    }
}

/// The events that applying `a` to `s` emits.
pub open spec fn events_of(s: AppStateView, a: AppAction) -> Seq<AppEvent> {
    match a {
        AppAction::Play => seq![AppEvent::PlaybackResumed],
        AppAction::Pause => seq![AppEvent::PlaybackPaused],
        AppAction::Next => match next_song_of(s) {
            Some(x) => seq![AppEvent::TrackChanged(x.id)],
            None => Seq::empty(),
        },
        AppAction::Previous => match prev_song_of(s) {
            Some(x) => seq![AppEvent::TrackChanged(x.id)],
            None => Seq::empty(),
        },
        AppAction::Load(id) => seq![AppEvent::TrackChanged(id)],
        AppAction::LoadPlaylist(_) => seq![AppEvent::PlaylistChanged(PlaylistChange::Reset)],
        AppAction::LoadPagedSongs(_, b) => if b.songs@.len() > 0 {
            seq![AppEvent::PlaylistChanged(PlaylistChange::AppendedAt(s.playlist.len() as usize))]
        } else {
            Seq::empty()
        },
        AppAction::LoginSuccess(_) => seq![AppEvent::LoginCompleted],
        AppAction::Select(_) => seq![AppEvent::SelectionChanged],
        AppAction::Deselect(_) => seq![AppEvent::SelectionChanged],
        AppAction::EnableSelection(_) => seq![AppEvent::SelectionChanged],
    }
}

/// Songs picked out for a bulk operation, and the list they were picked from.
#[derive(Clone, Debug, PartialEq, Eq)]
pub struct SelectionState {
    pub context: Option<SelectionContext>,
    pub selected: Vec<SongDescription>,
}

/// A `SelectionState` with its songs as a sequence.
pub struct SelectionView {
    pub context: Option<SelectionContext>,
    pub selected: Seq<SongDescription>,
}

impl View for SelectionState {
    type V = SelectionView;

    open spec fn view(&self) -> SelectionView {
        SelectionView { context: self.context, selected: self.selected@ }
    }
}

/// Whether some song of `songs` has the id `id`.
pub open spec fn has_id(songs: Seq<SongDescription>, id: Seq<char>) -> bool {
    exists|i: int| 0 <= i < songs.len() && #[trigger] songs[i].id@ == id
}

/// Whether `ids` holds `id`.
pub open spec fn lists_id(ids: Seq<String>, id: Seq<char>) -> bool {
    exists|i: int| 0 <= i < ids.len() && #[trigger] ids[i]@ == id
}

/// `sel` with each song of `songs` added at the end, in order, unless a song
/// with its id is already there.
pub open spec fn with_selected(sel: Seq<SongDescription>, songs: Seq<SongDescription>) -> Seq<
    SongDescription,
>
    decreases songs.len(),
{
    if songs.len() == 0 {
        sel
    } else {
        let prev = with_selected(sel, songs.drop_last());
        if has_id(prev, songs.last().id@) {
            prev
        } else {
            prev.push(songs.last())
        }
    }
}

/// `sel` without the songs whose id `ids` lists, the others kept in order.
pub open spec fn without_ids(sel: Seq<SongDescription>, ids: Seq<String>) -> Seq<SongDescription>
    decreases sel.len(),
{
    if sel.len() == 0 {
        sel
    } else {
        let prev = without_ids(sel.drop_last(), ids);
        if lists_id(ids, sel.last().id@) {
            prev
        } else {
            prev.push(sel.last())
        }
    }
}

/// The selection that follows `sel` when `a` is applied: enabling selection
/// starts an empty one in the given list.
pub open spec fn reduce_selection(sel: SelectionView, a: AppAction) -> SelectionView {
    match a {
        AppAction::Select(songs) => SelectionView { selected: with_selected(sel.selected, songs@), ..sel },
        AppAction::Deselect(ids) => SelectionView { selected: without_ids(sel.selected, ids@), ..sel },
        AppAction::EnableSelection(c) => SelectionView { context: Some(c), selected: Seq::empty() },
        _ => sel,
    }
}

/// Whether some song of `songs` has the id `id`.
pub fn contains_id(songs: &Vec<SongDescription>, id: &String) -> (r: bool)
    ensures
        r == has_id(songs@, id@),
{
    let mut i: usize = 0;
    while i < songs.len()
        invariant
            0 <= i <= songs@.len(),
            forall|j: int| 0 <= j < i ==> #[trigger] songs@[j].id@ != id@,
        decreases songs@.len() - i,
    {
        if songs[i].id == *id {
            return true;
        }
        i += 1;
    }
    false
}

fn ids_contain(ids: &Vec<String>, id: &String) -> (r: bool)
    ensures
        r == lists_id(ids@, id@),
{
    let mut i: usize = 0;
    while i < ids.len()
        invariant
            0 <= i <= ids@.len(),
            forall|j: int| 0 <= j < i ==> #[trigger] ids@[j]@ != id@,
        decreases ids@.len() - i,
    {
        if ids[i] == *id {
            return true;
        }
        i += 1;
    }
    false
}

impl SelectionState {
    pub fn new() -> (r: Self)
        ensures
            r@.context is None,
            r@.selected == Seq::<SongDescription>::empty(),
    {
        SelectionState { context: None, selected: Vec::new() }
    }

    /// Adds `songs`, skipping any whose id is already selected.
    pub fn select(&mut self, songs: &Vec<SongDescription>)
        ensures
            final(self)@.context == old(self)@.context,
            final(self)@.selected == with_selected(old(self)@.selected, songs@),
    {
        let mut i: usize = 0;
        while i < songs.len()
            invariant
                0 <= i <= songs@.len(),
                self.context == old(self).context,
                self.selected@ == with_selected(old(self).selected@, songs@.subrange(0, i as int)),
            decreases songs@.len() - i,
        {
            let ghost sub = songs@.subrange(0, i + 1);
            assert(sub.drop_last() == songs@.subrange(0, i as int));
            assert(sub.last() == songs@[i as int]);
            if !contains_id(&self.selected, &songs[i].id) {
                self.selected.push(songs[i].duplicate());
            }
            i += 1;
        }
        assert(songs@.subrange(0, i as int) == songs@);
    }

    /// Drops the selected songs whose id `ids` lists.
    pub fn deselect(&mut self, ids: &Vec<String>)
        ensures
            final(self)@.context == old(self)@.context,
            final(self)@.selected == without_ids(old(self)@.selected, ids@),
    {
        let ghost before = self.selected@;
        let mut kept: Vec<SongDescription> = Vec::new();
        let mut i: usize = 0;
        while i < self.selected.len()
            invariant
                0 <= i <= self.selected@.len(),
                self.selected@ == before,
                self.context == old(self).context,
                kept@ == without_ids(before.subrange(0, i as int), ids@),
            decreases self.selected@.len() - i,
        {
            let ghost sub = before.subrange(0, i + 1);
            assert(sub.drop_last() == before.subrange(0, i as int));
            assert(sub.last() == before[i as int]);
            if !ids_contain(ids, &self.selected[i].id) {
                kept.push(self.selected[i].duplicate());
            }
            i += 1;
        }
        assert(before.subrange(0, i as int) == before);
        self.selected = kept;
    }
}


/// No two songs of `songs` share an id.
pub open spec fn ids_distinct(songs: Seq<SongDescription>) -> bool {
    forall|i: int, j: int|
        0 <= i < j < songs.len() ==> #[trigger] songs[i].id@ != #[trigger] songs[j].id@
}

/// With songs told apart by id, `Next` from the last song, from a song that is
/// not in the playlist, or with no current song, leaves the state exactly as it
/// was and emits nothing.
pub proof fn lemma_next_at_boundary_is_noop(s: AppStateView)
    requires
        ids_distinct(s.playlist),
        match s.current_song_id {
            Some(id) => (s.playlist.len() > 0 && s.playlist.last().id@ == id@) || (forall|j: int|
                0 <= j < s.playlist.len() ==> #[trigger] s.playlist[j].id@ != id@),
            None => true,
        },
    ensures
        reduce(s, AppAction::Next) == s,
        events_of(s, AppAction::Next) == Seq::<AppEvent>::empty(),
{
    match s.current_song_id {
        Some(id) => {
            if s.playlist.len() > 0 && s.playlist.last().id@ == id@ {
                let n = s.playlist.len() - 1;
                assert forall|j: int| 0 <= j < n implies #[trigger] s.playlist[j].id@ != id@ by {
                    assert(s.playlist[j].id@ != s.playlist[n].id@);
                }
                lemma_position_of_first(s.playlist, id@, n);
            } else {
                assert(!exists|k: int| is_first_index(s.playlist, id@, k)) by {
                    if exists|k: int| is_first_index(s.playlist, id@, k) {
                        let k = choose|k: int| is_first_index(s.playlist, id@, k);
                        assert(s.playlist[k].id@ != id@);
                    }
                }
            }
        },
        None => {},
    }
}

/// Finds the first position of the song `id` in `songs`, by a linear scan.
pub fn position_in(songs: &Vec<SongDescription>, id: &String) -> (r: Option<usize>)
    ensures
        match r {
            Some(k) => position_of(songs@, id@) == Some(k as int) && k < songs@.len(),
            None => position_of(songs@, id@) is None,
        },
{
    let mut i: usize = 0;
    while i < songs.len()
        invariant
            0 <= i <= songs@.len(),
            forall|j: int| 0 <= j < i ==> #[trigger] songs@[j].id@ != id@,
        decreases songs@.len() - i,
    {
        if songs[i].id == *id {
            proof {
                lemma_position_of_first(songs@, id@, i as int);
            }
            return Some(i);
        }
        i += 1;
    }
    assert(!exists|k: int| is_first_index(songs@, id@, k)) by {
        if exists|k: int| is_first_index(songs@, id@, k) {
            let k = choose|k: int| is_first_index(songs@, id@, k);
            assert(songs@[k].id@ != id@);
        }
    }
    None
}

/// Holds the one authoritative state and applies actions to it.
pub struct AppModel {
    pub state: AppState,
    pub selection: SelectionState,
    /// Registered subscribers; see `wf`.
    pub subscribers: Vec<u64>,
    pub next_subscriber: u64,
}

impl AppModel {
    /// The handles of the registered subscribers, oldest first.
    pub open spec fn subscribers(&self) -> Seq<u64> {
        self.subscribers@
    }

    /// The handle that the next registration hands out.
    pub open spec fn next_handle(&self) -> u64 {
        self.next_subscriber
    }

    /// Handles are unique, and all lie below the next one to be handed out.
    pub open spec fn wf(&self) -> bool {
        &&& forall|i: int, j: int|
            0 <= i < j < self.subscribers@.len() ==> #[trigger] self.subscribers@[i]
                != #[trigger] self.subscribers@[j]
        &&& forall|i: int|
            0 <= i < self.subscribers@.len() ==> #[trigger] self.subscribers@[i]
                < self.next_subscriber
    }

    pub fn new(state: AppState) -> (r: Self)
        ensures
            r.state == state,
            r.selection@.context is None,
            r.selection@.selected == Seq::<SongDescription>::empty(),
            r.wf(),
            r.subscribers() == Seq::<u64>::empty(),
    {
        AppModel { state, selection: SelectionState::new(), subscribers: Vec::new(), next_subscriber: 0 }
    }

    /// Registers a subscriber and returns its handle, one that no registration
    /// has handed out before; `None` once every handle has been used.
    pub fn subscribe(&mut self) -> (r: Option<u64>)
        requires
            old(self).wf(),
        ensures
            final(self).wf(),
            final(self).state == old(self).state,
            final(self).selection == old(self).selection,
            match r {
                Some(h) => old(self).next_handle() < u64::MAX && h == old(self).next_handle()
                    && final(self).subscribers() == old(self).subscribers().push(h),
                None => old(self).next_handle() == u64::MAX && final(self).subscribers()
                    == old(self).subscribers(),
            },
    {
        if self.next_subscriber == u64::MAX {
            return None;
        }
        let h = self.next_subscriber;
        let ghost before = self.subscribers@;
        self.subscribers.push(h);
        self.next_subscriber = h + 1;
        assert forall|a: int, b: int|
            0 <= a < b < self.subscribers@.len() implies #[trigger] self.subscribers@[a]
            != #[trigger] self.subscribers@[b] by {
            if b == before.len() {
                assert(before[a] < h);
            } else {
                assert(before[a] != before[b]);
            }
        }
        assert forall|a: int| 0 <= a < self.subscribers@.len() implies #[trigger] self.subscribers@[a]
            < self.next_subscriber by {
            if a < before.len() {
                assert(before[a] < h);
            }
        }
        Some(h)
    }

    /// Removes the subscriber `handle`; the others stay registered, in order.
    pub fn unsubscribe(&mut self, handle: u64)
        requires
            old(self).wf(),
        ensures
            final(self).wf(),
            final(self).state == old(self).state,
            final(self).selection == old(self).selection,
            !final(self).subscribers().contains(handle),
            old(self).subscribers().contains(handle) ==> exists|i: int|
                0 <= i < old(self).subscribers().len() && old(self).subscribers()[i] == handle
                    && final(self).subscribers() == old(self).subscribers().remove(i),
            !old(self).subscribers().contains(handle) ==> final(self).subscribers() == old(
                self,
            ).subscribers(),
    {
        let mut i: usize = 0;
        while i < self.subscribers.len()
            invariant
                0 <= i <= self.subscribers@.len(),
                forall|j: int| 0 <= j < i ==> self.subscribers@[j] != handle,
                self.subscribers@ == old(self).subscribers@,
                self.state == old(self).state,
                self.selection == old(self).selection,
                self.next_subscriber == old(self).next_subscriber,
                self.wf(),
            decreases self.subscribers@.len() - i,
        {
            if self.subscribers[i] == handle {
                let ghost before = self.subscribers@;
                self.subscribers.remove(i);
                assert(self.subscribers@ == before.remove(i as int));
                assert forall|a: int, b: int|
                    0 <= a < b < self.subscribers@.len() implies #[trigger] self.subscribers@[a]
                    != #[trigger] self.subscribers@[b] by {
                    let a0 = if a < i { a } else { a + 1 };
                    let b0 = if b < i { b } else { b + 1 };
                    assert(before[a0] != before[b0]);
                }
                assert forall|a: int| 0 <= a < self.subscribers@.len() implies #[trigger] self.subscribers@[a]
                    < self.next_subscriber by {
                    let a0 = if a < i { a } else { a + 1 };
                    assert(before[a0] < self.next_subscriber);
                }
                assert(!self.subscribers@.contains(handle)) by {
                    if self.subscribers@.contains(handle) {
                        let a = choose|a: int| 0 <= a < self.subscribers@.len() && self.subscribers@[a] == handle;
                        let a0 = if a < i { a } else { a + 1 };
                        assert(before[a0] == before[i as int]);
                    }
                }
                return;
            }
            i += 1;
        }
        assert(!self.subscribers@.contains(handle)) by {
            if self.subscribers@.contains(handle) {
                let a = choose|a: int| 0 <= a < self.subscribers@.len() && self.subscribers@[a] == handle;
                assert(self.subscribers@[a] != handle);
            }
        }
    }

    /// Applies `action` and returns the events that subscribers are to receive.
    pub fn dispatch(&mut self, action: AppAction) -> (events: Vec<AppEvent>)
        ensures
            final(self).selection@ == reduce_selection(old(self).selection@, action),
            final(self).subscribers() == old(self).subscribers(),
            final(self).next_handle() == old(self).next_handle(),
            final(self).state@ == reduce(old(self).state@, action),
            events@ == events_of(old(self).state@, action),
    {
        self.update_state(&action)
    }

    /// Finds the first position of the current song, by identity.
    fn current_position(&self) -> (r: Option<usize>)
        ensures
            match r {
                Some(k) => current_position_of(self.state@) == Some(k as int) && k
                    < self.state.playlist@.len(),
                None => current_position_of(self.state@) is None,
            },
    {
        match &self.state.current_song_id {
            None => None,
            Some(id) => position_in(&self.state.playlist, id),
        }
    }

    fn prev_song(&self) -> (r: Option<&SongDescription>)
        ensures
            match r {
                Some(x) => prev_song_of(self.state@) == Some(*x),
                None => prev_song_of(self.state@) is None,
            },
    {
        match self.current_position() {
            Some(i) => if i > 0 {
                Some(&self.state.playlist[i - 1])
            } else {
                None
            },
            None => None,
        }
    }

    fn next_song(&self) -> (r: Option<&SongDescription>)
        ensures
            match r {
                Some(x) => next_song_of(self.state@) == Some(*x),
                None => next_song_of(self.state@) is None,
            },
    {
        match self.current_position() {
            Some(i) => if i < self.state.playlist.len() - 1 {
                Some(&self.state.playlist[i + 1])
            } else {
                None
            },
            None => None,
        }
    }

    /// Applies `message` to the state: the reduction step of the store.
    pub fn update_state(&mut self, message: &AppAction) -> (events: Vec<AppEvent>)
        ensures
            final(self).selection@ == reduce_selection(old(self).selection@, *message),
            final(self).subscribers() == old(self).subscribers(),
            final(self).next_handle() == old(self).next_handle(),
            final(self).state@ == reduce(old(self).state@, *message),
            events@ == events_of(old(self).state@, *message),
    {
        match message {
            AppAction::Play => {
                self.state.is_playing = true;
                vec![AppEvent::PlaybackResumed]
            },
            AppAction::Pause => {
                self.state.is_playing = false;
                vec![AppEvent::PlaybackPaused]
            },
            AppAction::Next => {
                let next = match self.next_song() {
                    Some(x) => Some(x.id.clone()),
                    None => None,
                };
                match next {
                    Some(id) => {
                        self.state.is_playing = true;
                        self.state.current_song_id = Some(id.clone());
                            vec![AppEvent::TrackChanged(id)]
                    },
                    None => Vec::new(),
                }
            },
            AppAction::Previous => {
                let prev = match self.prev_song() {
                    Some(x) => Some(x.id.clone()),
                    None => None,
                };
                match prev {
                    Some(id) => {
                        self.state.is_playing = true;
                        self.state.current_song_id = Some(id.clone());
                            vec![AppEvent::TrackChanged(id)]
                    },
                    None => Vec::new(),
                }
            },
            AppAction::Load(id) => {
                self.state.is_playing = true;
                self.state.current_song_id = Some(id.clone());
                vec![AppEvent::TrackChanged(id.clone())]
            },
            AppAction::LoadPlaylist(tracks) => {
                let mut songs: Vec<SongDescription> = Vec::new();
                let mut i: usize = 0;
                while i < tracks.len()
                    invariant
                        0 <= i <= tracks@.len(),
                        songs@ == tracks@.subrange(0, i as int),
                    decreases tracks@.len() - i,
                {
                    songs.push(tracks[i].duplicate());
                    i += 1;
                }
                assert(songs@ == tracks@);
                self.state.playlist = songs;
                vec![AppEvent::PlaylistChanged(PlaylistChange::Reset)]
            },
            AppAction::LoadPagedSongs(source, song_batch) => {
                let previous_len = self.state.playlist.len();
                let ghost before = self.state.playlist@;
                let mut i: usize = 0;
                while i < song_batch.songs.len()
                    invariant
                        0 <= i <= song_batch.songs@.len(),
                        self.state.playlist@ == before + song_batch.songs@.subrange(0, i as int),
                        self.state.is_playing == old(self).state.is_playing,
                        self.state.current_song_id == old(self).state.current_song_id,
                        self.state.pagination_cursor == old(self).state.pagination_cursor,
                        self.state.api_token == old(self).state.api_token,
                        self.subscribers == old(self).subscribers,
                        self.selection == old(self).selection,
                        self.next_subscriber == old(self).next_subscriber,
                    decreases song_batch.songs@.len() - i,
                {
                    self.state.playlist.push(song_batch.songs[i].duplicate());
                    i += 1;
                }
                assert(song_batch.songs@.subrange(0, i as int) == song_batch.songs@);
                self.state.pagination_cursor = match song_batch.batch.next() {
                    Some(b) => Some(BatchQuery { source: source.clone(), batch: b }),
                    None => None,
                };
                if song_batch.songs.len() > 0 {
                    vec![AppEvent::PlaylistChanged(PlaylistChange::AppendedAt(previous_len))]
                } else {
                    Vec::new()
                }
            },
            AppAction::LoginSuccess(creds) => {
                self.state.api_token = Some(creds.token.clone());
                vec![AppEvent::LoginCompleted]
            },
            AppAction::Select(songs) => {
                self.selection.select(songs);
                vec![AppEvent::SelectionChanged]
            },
            AppAction::Deselect(ids) => {
                self.selection.deselect(ids);
                vec![AppEvent::SelectionChanged]
            },
            AppAction::EnableSelection(c) => {
                self.selection = SelectionState { context: Some(*c), selected: Vec::new() };
                vec![AppEvent::SelectionChanged]
            },
        }
    }
}

} // verus!
