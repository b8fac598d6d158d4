//! Tracks and named, ordered collections of tracks.

use crate::media::{opt_str_view, MediaMetaData};
use crate::text::{lemma_opt_text_le_total, opt_string_eq_view, opt_string_le, opt_text_le, opt_u32_le, opt_u32_le_exec};
use crate::trusted::{local_now_string, random_u32};
use vstd::prelude::*;

verus! {

/// Whether a playlist is the single scanned library or a user-made list.
#[derive(Clone, Copy, Debug, PartialEq, Eq, Structural)]
pub enum PlaylistKind {
    Library,
    User,
}

/// The column a playlist is sorted by.
#[derive(Clone, Copy, Debug, PartialEq, Eq, Structural)]
pub enum SortBy {
    Artist,
    Album,
    Title,
}

#[derive(Clone, Copy, Debug, PartialEq, Eq, Structural)]
pub enum SortDirection {
    Ascending,
    Descending,
}

/// One entry of a playlist. `entry_id` is a random instance-local identifier
/// that tells duplicate entries of the same file apart; identity across
/// library rescans is the content-hash `metadata.id`, never the path or the
/// entry id.
pub struct Track {
    pub entry_id: u32,
    pub path: String,
    pub selected: bool,
    pub metadata: MediaMetaData,
    pub date_added: String,
}

impl Clone for Track {
    fn clone(&self) -> (r: Self)
        ensures
            r == *self,
    {
        Track {
            entry_id: self.entry_id,
            path: self.path.clone(),
            selected: self.selected,
            metadata: self.metadata.clone(),
            date_added: self.date_added.clone(),
        }
    }
}

/// Everything of a track except its entry id and the date it was added,
/// which `new` draws from the generator and the clock.
pub open spec fn track_same_except_ids(a: Track, b: Track) -> bool {
    a.path == b.path && a.selected == b.selected && a.metadata == b.metadata
}

impl Track {
    /// A fresh, empty track with a random entry id, added now.
    pub fn new() -> (r: Self)
        ensures
            r.path@ == Seq::<char>::empty(),
            r.selected == false,
            r.metadata == MediaMetaData::empty_spec(),
    {
        Self {
            entry_id: random_u32(),
            path: String::new(),
            selected: false,
            metadata: MediaMetaData::new(),
            date_added: local_now_string(),
        }
    }

    /// Draw a fresh random entry id; everything else is kept.
    pub fn generate_entry_id(&mut self)
        ensures
            track_same_except_ids(*final(self), *old(self)),
            final(self).date_added == old(self).date_added,
    {
        self.entry_id = random_u32();
    }

    /// Stamp the track as added now; everything else is kept.
    pub fn update_date_added(&mut self)
        ensures
            track_same_except_ids(*final(self), *old(self)),
            final(self).entry_id == old(self).entry_id,
    {
        self.date_added = local_now_string();
    }
}

/// Clone a vector of tracks, element for element.
pub fn clone_tracks(v: &Vec<Track>) -> (r: Vec<Track>)
    ensures
        r@ == v@,
{
    let mut r: Vec<Track> = Vec::new();
    let mut i: usize = 0;
    while i < v.len()
        invariant
            i <= v.len(),
            r@ == v@.subrange(0, i as int),
        decreases v.len() - i,
    {
        r.push(v[i].clone());
        proof {
            assert(r@ =~= v@.subrange(0, i + 1 as int));
        }
        i = i + 1;
    }
    proof {
        assert(v@.subrange(0, v@.len() as int) =~= v@);
    }
    r
}

/// The mathematical content of a playlist.
pub struct PlaylistModel {
    pub id: u32,
    pub name: Seq<char>,
    pub kind: PlaylistKind,
    pub tracks: Seq<Track>,
}

/// A named, ordered collection of tracks. Exactly one playlist of kind
/// `Library` is meant to exist at a time; its id is the reserved sentinel
/// `u32::MAX`, while user playlists get a random nonzero id.
pub struct Playlist {
    id: u32,
    name: String,
    kind: PlaylistKind,
    tracks: Vec<Track>,
}

impl View for Playlist {
    type V = PlaylistModel;

    closed spec fn view(&self) -> PlaylistModel {
        PlaylistModel { id: self.id, name: self.name@, kind: self.kind, tracks: self.tracks@ }
    }
}

/// A track with its selection flag set to `b`, everything else kept.
pub open spec fn with_selected(t: Track, b: bool) -> Track {
    Track { selected: b, ..t }
}

impl Clone for Playlist {
    fn clone(&self) -> (r: Self)
        ensures
            r@ == self@,
    {
        Playlist {
            id: self.id,
            name: self.name.clone(),
            kind: self.kind,
            tracks: clone_tracks(&self.tracks),
        }
    }
}

impl Playlist {
    /// A new, empty user playlist with a random nonzero id.
    pub fn new(name: String) -> (r: Playlist)
        ensures
            r@.id != 0,
            r@.name == name@,
            r@.kind == PlaylistKind::User,
            r@.tracks == Seq::<Track>::empty(),
    {
        let drawn = random_u32();
        let id = if drawn == 0 {
            1
        } else {
            drawn
        };
        Playlist { id, name, kind: PlaylistKind::User, tracks: Vec::new() }
    }

    /// A user playlist put back together from stored parts, keeping the id
    /// it was saved under.
    pub fn from_parts(id: u32, name: String, tracks: Vec<Track>) -> (r: Playlist)
        ensures
            r@ == (PlaylistModel { id, name: name@, kind: PlaylistKind::User, tracks: tracks@ }),
    {
        Playlist { id, name, kind: PlaylistKind::User, tracks }
    }

    /// The single library playlist, empty, with the reserved sentinel id.
    pub fn library() -> (r: Playlist)
        ensures
            r@.id == u32::MAX,
            r@.name == "Library"@,
            r@.kind == PlaylistKind::Library,
            r@.tracks == Seq::<Track>::empty(),
    {
        Playlist {
            id: u32::MAX,
            name: "Library".to_owned(),
            kind: PlaylistKind::Library,
            tracks: Vec::new(),
        }
    }

    /// Remove every track.
    pub fn clear(&mut self)
        ensures
            final(self)@ == (PlaylistModel { tracks: Seq::<Track>::empty(), ..old(self)@ }),
    {
        self.tracks.clear();
    }

    pub fn is_library(&self) -> (r: bool)
        ensures
            r == (self@.kind is Library),
    {
        matches!(self.kind, PlaylistKind::Library)
    }

    pub fn id(&self) -> (r: u32)
        ensures
            r == self@.id,
    {
        self.id
    }

    pub fn name(&self) -> (r: &str)
        ensures
            r@ == self@.name,
    {
        self.name.as_str()
    }

    /// Whether this playlist carries exactly the name `other`.
    pub fn name_matches(&self, other: &str) -> (r: bool)
        ensures
            r == (self@.name == other@),
    {
        let owned = other.to_owned();
        self.name == owned
    }

    pub fn set_name(&mut self, name: String)
        ensures
            final(self)@ == (PlaylistModel { name: name@, ..old(self)@ }),
    {
        self.name = name;
    }

    pub fn tracks(&self) -> (r: &Vec<Track>)
        ensures
            r@ == self@.tracks,
    {
        &self.tracks
    }

    pub fn len(&self) -> (r: usize)
        ensures
            r == self@.tracks.len(),
    {
        self.tracks.len()
    }

    /// Append a track at the end.
    pub fn push(&mut self, track: Track)
        ensures
            final(self)@ == (PlaylistModel { tracks: old(self)@.tracks.push(track), ..old(self)@ }),
    {
        self.tracks.push(track);
    }

    /// Mark every track as selected.
    pub fn select_all(&mut self)
        ensures
            final(self)@.id == old(self)@.id,
            final(self)@.name == old(self)@.name,
            final(self)@.kind == old(self)@.kind,
            final(self)@.tracks.len() == old(self)@.tracks.len(),
            forall|i: int|
                0 <= i < old(self)@.tracks.len() ==> final(self)@.tracks[i] == with_selected(
                    old(self)@.tracks[i],
                    true,
                ),
    {
        self.set_all_selected(true);
    }

    /// Mark every track as not selected.
    pub fn clear_selected(&mut self)
        ensures
            final(self)@.id == old(self)@.id,
            final(self)@.name == old(self)@.name,
            final(self)@.kind == old(self)@.kind,
            final(self)@.tracks.len() == old(self)@.tracks.len(),
            forall|i: int|
                0 <= i < old(self)@.tracks.len() ==> final(self)@.tracks[i] == with_selected(
                    old(self)@.tracks[i],
                    false,
                ),
    {
        self.set_all_selected(false);
    }

    fn set_all_selected(&mut self, b: bool)
        ensures
            final(self)@.id == old(self)@.id,
            final(self)@.name == old(self)@.name,
            final(self)@.kind == old(self)@.kind,
            final(self)@.tracks.len() == old(self)@.tracks.len(),
            forall|i: int|
                0 <= i < old(self)@.tracks.len() ==> final(self)@.tracks[i] == with_selected(
                    old(self)@.tracks[i],
                    b,
                ),
    {
        let n = self.tracks.len();
        let mut i: usize = 0;
        while i < n
            invariant
                n == self.tracks.len(),
                i <= n,
                self.id == old(self).id,
                self.name == old(self).name,
                self.kind == old(self).kind,
                forall|j: int|
                    0 <= j < i ==> self.tracks@[j] == with_selected(old(self).tracks@[j], b),
                forall|j: int| i <= j < n ==> self.tracks@[j] == old(self).tracks@[j],
            decreases n - i,
        {
            let t = &self.tracks[i];
            let updated = Track {
                entry_id: t.entry_id,
                path: t.path.clone(),
                selected: b,
                metadata: t.metadata.clone(),
                date_added: t.date_added.clone(),
            };
            self.tracks.set(i, updated);
            i = i + 1;
        }
    }

    /// Mark the track at `index` as selected.
    pub fn select(&mut self, index: usize)
        requires
            index < old(self)@.tracks.len(),
        ensures
            final(self)@ == (PlaylistModel {
                tracks: old(self)@.tracks.update(
                    index as int,
                    with_selected(old(self)@.tracks[index as int], true),
                ),
                ..old(self)@
            }),
    {
        self.set_selected(index, true);
    }

    /// Mark the track at `index` as not selected.
    pub fn deselect(&mut self, index: usize)
        requires
            index < old(self)@.tracks.len(),
        ensures
            final(self)@ == (PlaylistModel {
                tracks: old(self)@.tracks.update(
                    index as int,
                    with_selected(old(self)@.tracks[index as int], false),
                ),
                ..old(self)@
            }),
    {
        self.set_selected(index, false);
    }

    fn set_selected(&mut self, index: usize, b: bool)
        requires
            index < old(self)@.tracks.len(),
        ensures
            final(self)@ == (PlaylistModel {
                tracks: old(self)@.tracks.update(
                    index as int,
                    with_selected(old(self)@.tracks[index as int], b),
                ),
                ..old(self)@
            }),
    {
        let t = &self.tracks[index];
        let updated = Track {
            entry_id: t.entry_id,
            path: t.path.clone(),
            selected: b,
            metadata: t.metadata.clone(),
            date_added: t.date_added.clone(),
        };
        self.tracks.set(index, updated);
    }

    /// The selected tracks, in playlist order.
    pub fn selected(&self) -> (r: Vec<Track>)
        ensures
            r@ == self@.tracks.filter(|t: Track| t.selected),
    {
        let mut r: Vec<Track> = Vec::new();
        let n = self.tracks.len();
        let mut i: usize = 0;
        while i < n
            invariant
                n == self.tracks.len(),
                i <= n,
                r@ == self.tracks@.subrange(0, i as int).filter(|t: Track| t.selected),
            decreases n - i,
        {
            proof {
                reveal(Seq::filter);
                assert(self.tracks@.subrange(0, i + 1 as int).drop_last() =~= self.tracks@.subrange(
                    0,
                    i as int,
                ));
            }
            if self.tracks[i].selected {
                r.push(self.tracks[i].clone());
            }
            i = i + 1;
        }
        proof {
            assert(self.tracks@.subrange(0, n as int) =~= self.tracks@);
        }
        r
    }

    /// Drop every selected track, keeping the others in order.
    pub fn remove_selected(&mut self)
        ensures
            final(self)@ == (PlaylistModel {
                tracks: old(self)@.tracks.filter(|t: Track| !t.selected),
                ..old(self)@
            }),
    {
        let mut kept: Vec<Track> = Vec::new();
        let n = self.tracks.len();
        let mut i: usize = 0;
        while i < n
            invariant
                n == self.tracks.len(),
                i <= n,
                kept@ == self.tracks@.subrange(0, i as int).filter(|t: Track| !t.selected),
            decreases n - i,
        {
            proof {
                reveal(Seq::filter);
                assert(self.tracks@.subrange(0, i + 1 as int).drop_last() =~= self.tracks@.subrange(
                    0,
                    i as int,
                ));
            }
            if !self.tracks[i].selected {
                kept.push(self.tracks[i].clone());
            }
            i = i + 1;
        }
        proof {
            assert(self.tracks@.subrange(0, n as int) =~= self.tracks@);
        }
        self.tracks = kept;
    }

    /// Mark the whole inclusive span between `start` and `end` (in either
    /// order) as selected. Equal endpoints select nothing.
    pub fn select_range(&mut self, start: usize, end: usize)
        requires
            start < end ==> end < old(self)@.tracks.len(),
            end < start ==> start < old(self)@.tracks.len(),
        ensures
            final(self)@.id == old(self)@.id,
            final(self)@.name == old(self)@.name,
            final(self)@.kind == old(self)@.kind,
            final(self)@.tracks.len() == old(self)@.tracks.len(),
            forall|i: int|
                0 <= i < old(self)@.tracks.len() ==> final(self)@.tracks[i] == (if in_span(
                    start as int,
                    end as int,
                    i,
                ) {
                    with_selected(old(self)@.tracks[i], true)
                } else {
                    old(self)@.tracks[i]
                }),
    {
        if start < end {
            self.select_span(start, end);
        } else if end < start {
            self.select_span(end, start);
        }
    }

    fn select_span(&mut self, lo: usize, hi: usize)
        requires
            lo <= hi < old(self)@.tracks.len(),
        ensures
            final(self)@.id == old(self)@.id,
            final(self)@.name == old(self)@.name,
            final(self)@.kind == old(self)@.kind,
            final(self)@.tracks.len() == old(self)@.tracks.len(),
            forall|i: int|
                0 <= i < old(self)@.tracks.len() ==> final(self)@.tracks[i] == (if lo <= i <= hi {
                    with_selected(old(self)@.tracks[i], true)
                } else {
                    old(self)@.tracks[i]
                }),
    {
        let n = self.tracks.len();
        let mut i: usize = lo;
        while i <= hi
            invariant
                lo <= i <= hi + 1,
                hi < n,
                n == self@.tracks.len(),
                self@.tracks.len() == old(self)@.tracks.len(),
                self@.id == old(self)@.id,
                self@.name == old(self)@.name,
                self@.kind == old(self)@.kind,
                forall|j: int|
                    lo <= j < i ==> self@.tracks[j] == with_selected(old(self)@.tracks[j], true),
                forall|j: int|
                    0 <= j < self@.tracks.len() && !(lo <= j < i) ==> self@.tracks[j] == old(
                        self,
                    )@.tracks[j],
            decreases hi + 1 - i,
        {
            self.set_selected(i, true);
            i = i + 1;
        }
    }
}

/// Whether `i` lies in the inclusive span between `start` and `end`, taken in
/// either order; equal endpoints span nothing.
pub open spec fn in_span(start: int, end: int, i: int) -> bool {
    if start < end {
        start <= i <= end
    } else if end < start {
        end <= i <= start
    } else {
        false
    }
}

// ---------------------------------------------------------------------------
// Sorting

/// The artist sort key: artist, then album, then track number, each next key
/// deciding only where the previous ones read the same.
pub open spec fn artist_key_le(a: Track, b: Track) -> bool {
    if opt_str_view(a.metadata.artist) != opt_str_view(b.metadata.artist) {
        opt_text_le(a.metadata.artist, b.metadata.artist)
    } else if opt_str_view(a.metadata.album) != opt_str_view(b.metadata.album) {
        opt_text_le(a.metadata.album, b.metadata.album)
    } else {
        opt_u32_le(a.metadata.track_number, b.metadata.track_number)
    }
}

/// The ascending order of each sort column.
pub open spec fn track_le_by(by: SortBy, a: Track, b: Track) -> bool {
    match by {
        SortBy::Artist => artist_key_le(a, b),
        SortBy::Album => opt_text_le(a.metadata.album, b.metadata.album),
        SortBy::Title => opt_text_le(a.metadata.title, b.metadata.title),
    }
}

/// The order a sorted playlist obeys: the column's order, reversed for a
/// descending sort.
pub open spec fn track_ordered(by: SortBy, dir: SortDirection, a: Track, b: Track) -> bool {
    match dir {
        SortDirection::Ascending => track_le_by(by, a, b),
        SortDirection::Descending => track_le_by(by, b, a),
    }
}

/// Any two tracks compare one way or the other.
pub proof fn lemma_track_ordered_total(by: SortBy, dir: SortDirection, a: Track, b: Track)
    ensures
        track_ordered(by, dir, a, b) || track_ordered(by, dir, b, a),
{
    lemma_opt_text_le_total(a.metadata.artist, b.metadata.artist);
    lemma_opt_text_le_total(a.metadata.album, b.metadata.album);
    lemma_opt_text_le_total(a.metadata.title, b.metadata.title);
}

/// Every track comes at or before its neighbour.
pub open spec fn sorted_tracks(s: Seq<Track>, by: SortBy, dir: SortDirection) -> bool {
    forall|k: int| 0 <= k && k + 1 < s.len() ==> track_ordered(by, dir, #[trigger] s[k], s[k + 1])
}

fn track_le_exec(by: SortBy, a: &Track, b: &Track) -> (r: bool)
    ensures
        r == track_le_by(by, *a, *b),
{
    match by {
        SortBy::Artist => {
            if !opt_string_eq_view(&a.metadata.artist, &b.metadata.artist) {
                opt_string_le(&a.metadata.artist, &b.metadata.artist)
            } else if !opt_string_eq_view(&a.metadata.album, &b.metadata.album) {
                opt_string_le(&a.metadata.album, &b.metadata.album)
            } else {
                opt_u32_le_exec(a.metadata.track_number, b.metadata.track_number)
            }
        },
        SortBy::Album => opt_string_le(&a.metadata.album, &b.metadata.album),
        SortBy::Title => opt_string_le(&a.metadata.title, &b.metadata.title),
    }
}

fn track_ordered_exec(by: SortBy, dir: SortDirection, a: &Track, b: &Track) -> (r: bool)
    ensures
        r == track_ordered(by, dir, *a, *b),
{
    match dir {
        SortDirection::Ascending => track_le_exec(by, a, b),
        SortDirection::Descending => track_le_exec(by, b, a),
    }
}

impl Playlist {
    /// Sort the tracks by the chosen column and direction. The tracks are
    /// rearranged, none added or dropped, and afterwards every track comes
    /// at or before its neighbour in the chosen order.
    pub fn sort(&mut self, sort_by: SortBy, sort_direction: SortDirection)
        ensures
            final(self)@.id == old(self)@.id,
            final(self)@.name == old(self)@.name,
            final(self)@.kind == old(self)@.kind,
            final(self)@.tracks.to_multiset() == old(self)@.tracks.to_multiset(),
            final(self)@.tracks.len() == old(self)@.tracks.len(),
            sorted_tracks(final(self)@.tracks, sort_by, sort_direction),
    {
        let n = self.tracks.len();
        let mut out: Vec<Track> = Vec::new();
        let mut i: usize = 0;
        proof {
            broadcast use vstd::seq_lib::group_to_multiset_ensures;

            assert(self.tracks@.subrange(0, 0) =~= Seq::<Track>::empty());
            assert(out@.to_multiset() =~= self.tracks@.subrange(0, 0).to_multiset());
        }
        while i < n
            invariant
                i <= n,
                n == self.tracks@.len(),
                *self == *old(self),
                out@.len() == i,
                out@.to_multiset() == self.tracks@.subrange(0, i as int).to_multiset(),
                sorted_tracks(out@, sort_by, sort_direction),
            decreases n - i,
        {
            let x = self.tracks[i].clone();
            let ghost out_pre = out@;
            let mut p: usize = 0;
            loop
                invariant
                    p <= out@.len(),
                    out@ == out_pre,
                    x == self.tracks@[i as int],
                    *self == *old(self),
                    i < n,
                    n == self.tracks@.len(),
                    forall|k: int|
                        0 <= k < p ==> track_ordered(sort_by, sort_direction, out@[k], x),
                ensures
                    p <= out@.len(),
                    out@ == out_pre,
                    forall|k: int|
                        0 <= k < p ==> track_ordered(sort_by, sort_direction, out@[k], x),
                    p < out@.len() ==> track_ordered(sort_by, sort_direction, x, out@[p as int]),
                decreases out@.len() - p,
            {
                if p == out.len() {
                    break;
                }
                if !track_ordered_exec(sort_by, sort_direction, &out[p], &x) {
                    proof {
                        lemma_track_ordered_total(sort_by, sort_direction, out@[p as int], x);
                    }
                    break;
                }
                p = p + 1;
            }
            out.insert(p, x);
            proof {
                broadcast use vstd::seq_lib::group_to_multiset_ensures;

                let a = out_pre.subrange(0, p as int);
                let b = out_pre.subrange(p as int, out_pre.len() as int);
                assert(out@ =~= a + (seq![x] + b));
                assert(out_pre =~= a + b);
                vstd::seq_lib::lemma_multiset_commutative(a, seq![x] + b);
                vstd::seq_lib::lemma_multiset_commutative(seq![x], b);
                vstd::seq_lib::lemma_multiset_commutative(a, b);
                assert(seq![x] =~= Seq::<Track>::empty().push(x));
                assert(seq![x].to_multiset() =~= Seq::<Track>::empty().to_multiset().insert(x));
                assert(out@.to_multiset() =~= out_pre.to_multiset().insert(x));
                assert(self.tracks@.subrange(0, i + 1) =~= self.tracks@.subrange(0, i as int).push(
                    x,
                ));
                assert(self.tracks@.subrange(0, i + 1).to_multiset() =~= self.tracks@.subrange(
                    0,
                    i as int,
                ).to_multiset().insert(x));
                assert forall|k: int|
                    0 <= k && k + 1 < out@.len() implies track_ordered(
                    sort_by,
                    sort_direction,
                    #[trigger] out@[k],
                    out@[k + 1],
                ) by {
                    assert(out@ =~= a + (seq![x] + b));
                    if k + 1 < p {
                        assert(out@[k] == out_pre[k] && out@[k + 1] == out_pre[k + 1]);
                    } else if k + 1 == p {
                        assert(out@[k] == out_pre[k] && out@[k + 1] == x);
                    } else if k == p {
                        assert(out@[k] == x && out@[k + 1] == out_pre[k]);
                    } else {
                        assert(out@[k] == out_pre[k - 1] && out@[k + 1] == out_pre[k]);
                    }
                }
            }
            i = i + 1;
        }
        proof {
            assert(self.tracks@.subrange(0, n as int) =~= self.tracks@);
        }
        self.tracks = out;
    }
}

} // verus!
