//! Track metadata and the scanned media library.

use crate::model::{first_where, lemma_first_where_is, lemma_first_where_props};
use vstd::prelude::*;

verus! {

/// Metadata extracted from an audio file. Every field may be missing:
/// extraction runs in the background and may not have finished, or the file
/// may carry no tags. `id` is a stable content-hash identifier that survives
/// path moves; a track without an `id` has not finished extraction.
pub struct MediaMetaData {
    pub id: Option<String>,
    pub title: Option<String>,
    pub artist: Option<String>,
    pub album: Option<String>,
    pub album_artist: Option<String>,
    pub genre: Option<String>,
    pub album_disc_number: Option<u32>,
    pub album_disc_count: Option<u32>,
    pub track_number: Option<u32>,
    pub track_count: Option<u32>,
    /// Whole seconds of audio.
    pub duration: Option<u64>,
    pub artwork_filename: Option<String>,
}

impl MediaMetaData {
    /// Fresh metadata with every field missing.
    pub fn new() -> (r: Self)
        ensures
            r == MediaMetaData::empty_spec(),
    {
        Self {
            id: None,
            title: None,
            artist: None,
            album: None,
            album_artist: None,
            genre: None,
            album_disc_number: None,
            album_disc_count: None,
            track_number: None,
            track_count: None,
            duration: None,
            artwork_filename: None,
        }
    }

    /// The all-missing metadata value.
    pub open spec fn empty_spec() -> Self {
        MediaMetaData {
            id: None,
            title: None,
            artist: None,
            album: None,
            album_artist: None,
            genre: None,
            album_disc_number: None,
            album_disc_count: None,
            track_number: None,
            track_count: None,
            duration: None,
            artwork_filename: None,
        }
    }
}

impl Clone for MediaMetaData {
    fn clone(&self) -> (r: Self)
        ensures
            r == *self,
    {
        let r = Self {
            id: clone_opt_string(&self.id),
            title: clone_opt_string(&self.title),
            artist: clone_opt_string(&self.artist),
            album: clone_opt_string(&self.album),
            album_artist: clone_opt_string(&self.album_artist),
            genre: clone_opt_string(&self.genre),
            album_disc_number: self.album_disc_number,
            album_disc_count: self.album_disc_count,
            track_number: self.track_number,
            track_count: self.track_count,
            duration: self.duration,
            artwork_filename: clone_opt_string(&self.artwork_filename),
        };
        r
    }
}

/// An optional string, seen as its content.
pub open spec fn opt_str_view(o: Option<String>) -> Option<Seq<char>> {
    match o {
        Some(s) => Some(s@),
        None => None,
    }
}

/// Clone an optional string, keeping the exact value.
pub fn clone_opt_string(s: &Option<String>) -> (r: Option<String>)
    ensures
        r == *s,
{
    match s {
        Some(x) => Some(x.clone()),
        None => None,
    }
}

/// One scanned file: where it lies and what extraction produced.
pub struct MediaEntry {
    pub path: String,
    pub metadata: MediaMetaData,
}

impl Clone for MediaEntry {
    fn clone(&self) -> (r: Self)
        ensures
            r == *self,
    {
        MediaEntry { path: self.path.clone(), metadata: self.metadata.clone() }
    }
}

/// Entries whose extraction produced a content hash.
pub open spec fn entry_hashed_pred() -> spec_fn(MediaEntry) -> bool {
    |e: MediaEntry| e.metadata.id is Some
}

/// Entries carrying exactly the content hash `id`.
pub open spec fn entry_id_pred(id: Seq<char>) -> spec_fn(MediaEntry) -> bool {
    |e: MediaEntry| opt_str_view(e.metadata.id) == Some(id)
}

/// The scanned media library: one entry per file, in scan order.
pub struct Library {
    pub media: Vec<MediaEntry>,
}

impl Library {
    pub fn new() -> (r: Self)
        ensures
            r.media@ == Seq::<MediaEntry>::empty(),
    {
        Library { media: Vec::new() }
    }

    /// Take loaded entries in, dropping any whose extraction never produced
    /// a content hash.
    pub fn from_entries(entries: Vec<MediaEntry>) -> (r: Self)
        ensures
            r.media@ == entries@.filter(entry_hashed_pred()),
    {
        let mut kept: Vec<MediaEntry> = Vec::new();
        let n = entries.len();
        let mut i: usize = 0;
        proof {
            assert(entries@.subrange(0, 0) =~= Seq::<MediaEntry>::empty());
            assert(kept@ =~= entries@.subrange(0, 0).filter(entry_hashed_pred()));
        }
        while i < n
            invariant
                i <= n,
                n == entries@.len(),
                kept@ == entries@.subrange(0, i as int).filter(entry_hashed_pred()),
            decreases n - i,
        {
            proof {
                reveal(Seq::filter);
                assert(entries@.subrange(0, i + 1).drop_last() =~= entries@.subrange(0, i as int));
            }
            if entries[i].metadata.id.is_some() {
                kept.push(entries[i].clone());
            }
            proof {
                assert(kept@ =~= entries@.subrange(0, i + 1).filter(entry_hashed_pred()));
            }
            i = i + 1;
        }
        proof {
            assert(entries@.subrange(0, n as int) =~= entries@);
        }
        Library { media: kept }
    }

    /// The first entry carrying exactly this content hash, if any.
    pub fn from_id(&self, id: &String) -> (r: Option<MediaEntry>)
        ensures
            r matches Some(e) ==> (first_where(self.media@, entry_id_pred(id@)) matches Some(j)
                && e == self.media@[j]),
            r is None ==> first_where(self.media@, entry_id_pred(id@)) is None,
    {
        let n = self.media.len();
        let mut i: usize = 0;
        while i < n
            invariant
                i <= n,
                n == self.media@.len(),
                forall|j: int| 0 <= j < i ==> !(#[trigger] entry_id_pred(id@)(self.media@[j])),
            decreases n - i,
        {
            let hit = match &self.media[i].metadata.id {
                Some(eid) => *eid == *id,
                None => false,
            };
            if hit {
                proof {
                    assert(entry_id_pred(id@)(self.media@[i as int]));
                    lemma_first_where_is(self.media@, entry_id_pred(id@), i as int);
                }
                return Some(self.media[i].clone());
            }
            proof {
                assert(!entry_id_pred(id@)(self.media@[i as int]));
            }
            i = i + 1;
        }
        proof {
            lemma_first_where_props(self.media@, entry_id_pred(id@));
        }
        None
    }
}

} // verus!
