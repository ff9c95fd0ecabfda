use vstd::prelude::*;
use crate::state::{
    AppAction, AppEvent, AppStateView, PlaylistChange, SongBatch, SongDescription, events_of,
    reduce,
};

verus! {

/// An edit that a list view can apply as it stands.
#[derive(Clone, Debug, PartialEq, Eq)]
pub enum ListDiff {
    SetAll(Vec<SongDescription>),
    Insert(usize, Vec<SongDescription>),
    Append(Vec<SongDescription>),
    MoveUp(usize),
    MoveDown(usize),
}

/// A `ListDiff` with its items as sequences.
pub enum ListDiffView {
    SetAll(Seq<SongDescription>),
    Insert(usize, Seq<SongDescription>),
    Append(Seq<SongDescription>),
    MoveUp(usize),
    MoveDown(usize),
}

impl View for ListDiff {
    type V = ListDiffView;

    open spec fn view(&self) -> ListDiffView {
        match self {
            ListDiff::SetAll(v) => ListDiffView::SetAll(v@),
            ListDiff::Insert(i, v) => ListDiffView::Insert(*i, v@),
            ListDiff::Append(v) => ListDiffView::Append(v@),
            ListDiff::MoveUp(i) => ListDiffView::MoveUp(*i),
            ListDiff::MoveDown(i) => ListDiffView::MoveDown(*i),
        }
    }
}

/// `k`, held to at most `n`.
pub open spec fn clamp(k: int, n: int) -> int {
    if k < n {
        k
    } else {
        n
    }
}

/// The edit that brings a view up to `items` after `change`, read off the
/// current items alone.
pub open spec fn diff_spec(change: PlaylistChange, items: Seq<SongDescription>) -> ListDiffView {
    match change {
        PlaylistChange::Reset => ListDiffView::SetAll(items),
        PlaylistChange::InsertedAt(i, n) => ListDiffView::Insert(
            i,
            items.subrange(clamp(i as int, items.len() as int), clamp(i + n, items.len() as int)),
        ),
        PlaylistChange::AppendedAt(i) => ListDiffView::Append(
            items.subrange(clamp(i as int, items.len() as int), items.len() as int),
        ),
        PlaylistChange::MovedUp(i) => ListDiffView::MoveUp(i),
        PlaylistChange::MovedDown(i) => ListDiffView::MoveDown(i),
    }
}

fn slice_songs(items: &Vec<SongDescription>, from: usize, to: usize) -> (r: Vec<SongDescription>)
    requires
        from <= to <= items@.len(),
    ensures
        r@ == items@.subrange(from as int, to as int),
{
    let mut r: Vec<SongDescription> = Vec::new();
    let mut i: usize = from;
    while i < to
        invariant
            from <= i <= to <= items@.len(),
            r@ == items@.subrange(from as int, i as int),
        decreases to - i,
    {
        r.push(items[i].duplicate());
        i += 1;
    }
    r
}

/// Turns `change` into the edit that a view of `items` applies.
pub fn diff_for(change: PlaylistChange, items: &Vec<SongDescription>) -> (r: ListDiff)
    ensures
        r@ == diff_spec(change, items@),
{
    let len = items.len();
    match change {
        PlaylistChange::Reset => {
            let all = slice_songs(items, 0, len);
            assert(items@.subrange(0, len as int) == items@);
            ListDiff::SetAll(all)
        },
        PlaylistChange::InsertedAt(i, n) => {
            let start = if i < len {
                i
            } else {
                len
            };
            let end = if n < len - start {
                start + n
            } else {
                len
            };
            ListDiff::Insert(i, slice_songs(items, start, end))
        },
        PlaylistChange::AppendedAt(i) => {
            let start = if i < len {
                i
            } else {
                len
            };
            ListDiff::Append(slice_songs(items, start, len))
        },
        PlaylistChange::MovedUp(i) => ListDiff::MoveUp(i),
        PlaylistChange::MovedDown(i) => ListDiff::MoveDown(i),
    }
}

/// The edit for `event` when it changed the playlist, now `items`; nothing for
/// other events.
pub fn diff_for_event(event: &AppEvent, items: &Vec<SongDescription>) -> (r: Option<ListDiff>)
    ensures
        match event {
            AppEvent::PlaylistChanged(c) => r matches Some(d) && d@ == diff_spec(*c, items@),
            _ => r is None,
        },
{
    match event {
        AppEvent::PlaylistChanged(c) => Some(diff_for(*c, items)),
        _ => None,
    }
}

/// Loading a non-empty page appends it to the playlist, emits a single append
/// at the old length, and that append turns into an edit that carries exactly
/// the page.
pub proof fn lemma_paged_append_round_trip(s: AppStateView, source: String, page: SongBatch)
    requires
        s.playlist.len() <= usize::MAX,
        page.songs@.len() > 0,
    ensures
        reduce(s, AppAction::LoadPagedSongs(source, page)).playlist == s.playlist + page.songs@,
        events_of(s, AppAction::LoadPagedSongs(source, page)) == seq![
            AppEvent::PlaylistChanged(PlaylistChange::AppendedAt(s.playlist.len() as usize)),
        ],
        diff_spec(
            PlaylistChange::AppendedAt(s.playlist.len() as usize),
            reduce(s, AppAction::LoadPagedSongs(source, page)).playlist,
        ) == ListDiffView::Append(page.songs@),
{
    let all = s.playlist + page.songs@;
    assert(all.subrange(s.playlist.len() as int, all.len() as int) == page.songs@);
}

} // verus!
