//! The in-memory playlist collection: the single library playlist plus the
//! user's own lists. Reading and writing them on disk is the unverified
//! shell's business; it hands loaded playlists in and serializes what it
//! reads back out.

use crate::model::{first_where, lemma_first_where_is, lemma_first_where_props};
use crate::playlist::{sorted_tracks, Playlist, PlaylistKind, PlaylistModel, SortBy, SortDirection, Track};
use vstd::prelude::*;

verus! {

/// Why a playlist operation was refused.
#[derive(Clone, Copy, Debug, PartialEq, Eq, Structural)]
pub enum PlaylistError {
    /// No playlist carries this id.
    NotFound(u32),
    /// A playlist of this name already exists.
    NameExists,
    /// The library playlist cannot be renamed, deleted or edited.
    CannotModifyLibrary,
    /// A track index beyond the playlist's end.
    IndexOutOfBounds,
}

/// Playlists carrying exactly the id `id`.
pub open spec fn pl_id_pred(id: u32) -> spec_fn(PlaylistModel) -> bool {
    |p: PlaylistModel| p.id == id
}

/// Playlists of the library kind.
pub open spec fn pl_library_pred() -> spec_fn(PlaylistModel) -> bool {
    |p: PlaylistModel| p.kind is Library
}

/// Playlists carrying exactly the name `name`.
pub open spec fn pl_name_pred(name: Seq<char>) -> spec_fn(PlaylistModel) -> bool {
    |p: PlaylistModel| p.name == name
}

/// The library playlist holding exactly these tracks.
pub open spec fn library_model(tracks: Seq<Track>) -> PlaylistModel {
    PlaylistModel {
        id: u32::MAX,
        name: "Library"@,
        kind: PlaylistKind::Library,
        tracks,
    }
}

pub struct PlaylistService {
    playlists: Vec<Playlist>,
}

impl View for PlaylistService {
    type V = Seq<PlaylistModel>;

    closed spec fn view(&self) -> Seq<PlaylistModel> {
        self.playlists@.map_values(|p: Playlist| p@)
    }
}

impl PlaylistService {
    pub fn new() -> (r: Self)
        ensures
            r@ == Seq::<PlaylistModel>::empty(),
    {
        let r = PlaylistService { playlists: Vec::new() };
        proof {
            assert(r@ =~= Seq::<PlaylistModel>::empty());
        }
        r
    }

    /// Install the library playlist built from the scanned tracks, then the
    /// playlists the shell loaded from disk, in their order.
    pub fn load_all(&mut self, library_tracks: Vec<Track>, loaded: Vec<Playlist>)
        ensures
            final(self)@ == old(self)@ + seq![library_model(library_tracks@)] + loaded@.map_values(
                |p: Playlist| p@,
            ),
    {
        let ghost loaded_models = loaded@.map_values(|p: Playlist| p@);
        let ghost lib_tracks = library_tracks@;
        let mut library = Playlist::library();
        let tracks = library_tracks;
        let mut i: usize = 0;
        let n = tracks.len();
        proof {
            assert(library@.tracks =~= lib_tracks.subrange(0, 0));
        }
        while i < n
            invariant
                i <= n,
                n == tracks@.len(),
                tracks@ == lib_tracks,
                library@.id == u32::MAX,
                library@.name == "Library"@,
                library@.kind == PlaylistKind::Library,
                library@.tracks == lib_tracks.subrange(0, i as int),
            decreases n - i,
        {
            library.push(tracks[i].clone());
            proof {
                assert(library@.tracks =~= lib_tracks.subrange(0, i + 1));
            }
            i = i + 1;
        }
        proof {
            assert(lib_tracks.subrange(0, n as int) =~= lib_tracks);
            assert(library@ =~= library_model(lib_tracks));
        }
        self.playlists.push(library);
        proof {
            assert(self@ =~= old(self)@ + seq![library_model(lib_tracks)]);
        }
        let mut remaining = loaded;
        let ghost mut done: int = 0;
        while remaining.len() > 0
            invariant
                0 <= done <= loaded_models.len(),
                remaining@.map_values(|p: Playlist| p@) == loaded_models.skip(done),
                self@ == old(self)@ + seq![library_model(lib_tracks)] + loaded_models.subrange(
                    0,
                    done,
                ),
            decreases remaining@.len(),
        {
            let ghost prev = remaining@;
            let p = remaining.remove(0);
            proof {
                assert(prev.map_values(|q: Playlist| q@).len() == prev.len());
                assert(loaded_models.skip(done).len() == loaded_models.len() - done);
                assert(done < loaded_models.len());
                assert(prev.map_values(|q: Playlist| q@)[0] == p@);
                assert(loaded_models.skip(done)[0] == loaded_models[done]);
                assert(remaining@ =~= prev.skip(1));
                assert forall|k: int|
                    0 <= k < remaining@.len() implies remaining@.map_values(|q: Playlist| q@)[k]
                    == #[trigger] loaded_models.skip(done + 1)[k] by {
                    assert(remaining@[k] == prev[k + 1]);
                    assert(prev.map_values(|q: Playlist| q@)[k + 1] == prev[k + 1]@);
                    assert(loaded_models.skip(done)[k + 1] == loaded_models[done + 1 + k]);
                    assert(loaded_models.skip(done + 1)[k] == loaded_models[done + 1 + k]);
                }
                assert(remaining@.map_values(|q: Playlist| q@) =~= loaded_models.skip(done + 1));
            }
            let ghost before = self@;
            self.playlists.push(p);
            proof {
                assert(self@ =~= before.push(p@));
                assert(loaded_models.subrange(0, done + 1) =~= loaded_models.subrange(
                    0,
                    done,
                ).push(loaded_models[done]));
                assert(self@ =~= old(self)@ + seq![library_model(lib_tracks)]
                    + loaded_models.subrange(0, done + 1));
            }
            proof {
                done = done + 1;
            }
        }
        proof {
            assert(loaded_models.skip(done).len() == 0);
            assert(done == loaded_models.len());
            assert(loaded_models.subrange(0, done) =~= loaded_models);
        }
    }

    /// Create a new, empty user playlist under a fresh random id, unless the
    /// name is already taken.
    pub fn create(&mut self, name: String) -> (r: Result<u32, PlaylistError>)
        ensures
            first_where(old(self)@, pl_name_pred(name@)) is Some ==> r == Err::<
                u32,
                PlaylistError,
            >(PlaylistError::NameExists) && final(self)@ == old(self)@,
            first_where(old(self)@, pl_name_pred(name@)) is None ==> (r matches Ok(id) && id != 0
                && final(self)@ == old(self)@.push(
                PlaylistModel {
                    id,
                    name: name@,
                    kind: PlaylistKind::User,
                    tracks: Seq::empty(),
                },
            )),
    {
        let n = self.playlists.len();
        let mut i: usize = 0;
        while i < n
            invariant
                i <= n,
                n == self@.len(),
                forall|j: int| 0 <= j < i ==> !(#[trigger] pl_name_pred(name@)(self@[j])),
            decreases n - i,
        {
            if self.playlists[i].name_matches(name.as_str()) {
                proof {
                    assert(pl_name_pred(name@)(self@[i as int]));
                    lemma_first_where_is(self@, pl_name_pred(name@), i as int);
                }
                return Err(PlaylistError::NameExists);
            }
            proof {
                assert(!pl_name_pred(name@)(self@[i as int]));
            }
            i = i + 1;
        }
        proof {
            lemma_first_where_props(self@, pl_name_pred(name@));
        }
        let ghost nm = name@;
        let playlist = Playlist::new(name);
        let id = playlist.id();
        self.playlists.push(playlist);
        proof {
            assert(self@ =~= old(self)@.push(
                PlaylistModel {
                    id,
                    name: nm,
                    kind: PlaylistKind::User,
                    tracks: Seq::empty(),
                },
            ));
        }
        Ok(id)
    }

    /// The least position holding the playlist with this id, scanning front
    /// to back.
    fn find_index(&self, id: u32) -> (r: Option<usize>)
        ensures
            r matches Some(i) ==> i < self@.len() && first_where(self@, pl_id_pred(id)) == Some(
                i as int,
            ),
            r is None ==> first_where(self@, pl_id_pred(id)) is None,
    {
        let n = self.playlists.len();
        let mut i: usize = 0;
        while i < n
            invariant
                i <= n,
                n == self@.len(),
                forall|j: int| 0 <= j < i ==> !(#[trigger] pl_id_pred(id)(self@[j])),
            decreases n - i,
        {
            if self.playlists[i].id() == id {
                proof {
                    assert(pl_id_pred(id)(self@[i as int]));
                    lemma_first_where_is(self@, pl_id_pred(id), i as int);
                }
                return Some(i);
            }
            proof {
                assert(!pl_id_pred(id)(self@[i as int]));
            }
            i = i + 1;
        }
        proof {
            lemma_first_where_props(self@, pl_id_pred(id));
        }
        None
    }

    /// The playlist with this id, the first where two share one.
    pub fn get(&self, id: u32) -> (r: Result<&Playlist, PlaylistError>)
        ensures
            first_where(self@, pl_id_pred(id)) matches Some(i) ==> r matches Ok(p) && p@ == self@[i],
            first_where(self@, pl_id_pred(id)) is None ==> r == Err::<&Playlist, PlaylistError>(
                PlaylistError::NotFound(id),
            ),
    {
        match self.find_index(id) {
            Some(i) => Ok(&self.playlists[i]),
            None => Err(PlaylistError::NotFound(id)),
        }
    }

    /// The library playlist.
    pub fn get_library(&self) -> (r: Result<&Playlist, PlaylistError>)
        ensures
            first_where(self@, pl_library_pred()) matches Some(i) ==> r matches Ok(p) && p@
                == self@[i],
            first_where(self@, pl_library_pred()) is None ==> r == Err::<&Playlist, PlaylistError>(
                PlaylistError::NotFound(u32::MAX),
            ),
    {
        let n = self.playlists.len();
        let mut i: usize = 0;
        while i < n
            invariant
                i <= n,
                n == self@.len(),
                forall|j: int| 0 <= j < i ==> !(#[trigger] pl_library_pred()(self@[j])),
            decreases n - i,
        {
            if self.playlists[i].is_library() {
                proof {
                    assert(pl_library_pred()(self@[i as int]));
                    lemma_first_where_is(self@, pl_library_pred(), i as int);
                }
                return Ok(&self.playlists[i]);
            }
            proof {
                assert(!pl_library_pred()(self@[i as int]));
            }
            i = i + 1;
        }
        proof {
            lemma_first_where_props(self@, pl_library_pred());
        }
        Err(PlaylistError::NotFound(u32::MAX))
    }

    /// All playlists, in order.
    pub fn all(&self) -> (r: &Vec<Playlist>)
        ensures
            r@.map_values(|p: Playlist| p@) == self@,
    {
        &self.playlists
    }

    /// The user's own playlists, in order, without the library.
    pub fn user_playlists(&self) -> (r: Vec<Playlist>)
        ensures
            r@.map_values(|p: Playlist| p@) == self@.filter(
                |p: PlaylistModel| !(p.kind is Library),
            ),
    {
        let mut r: Vec<Playlist> = Vec::new();
        let n = self.playlists.len();
        let mut i: usize = 0;
        proof {
            assert(self@.subrange(0, 0) =~= Seq::<PlaylistModel>::empty());
            assert(r@.map_values(|p: Playlist| p@) =~= self@.subrange(0, 0).filter(
                |p: PlaylistModel| !(p.kind is Library),
            ));
        }
        while i < n
            invariant
                i <= n,
                n == self@.len(),
                r@.map_values(|p: Playlist| p@) == self@.subrange(0, i as int).filter(
                    |p: PlaylistModel| !(p.kind is Library),
                ),
            decreases n - i,
        {
            proof {
                reveal(Seq::filter);
                assert(self@.subrange(0, i + 1).drop_last() =~= self@.subrange(0, i as int));
            }
            if !self.playlists[i].is_library() {
                r.push(self.playlists[i].clone());
                proof {
                    assert(r@.map_values(|p: Playlist| p@) =~= self@.subrange(0, i + 1).filter(
                        |p: PlaylistModel| !(p.kind is Library),
                    ));
                }
            } else {
                proof {
                    assert(r@.map_values(|p: Playlist| p@) =~= self@.subrange(0, i + 1).filter(
                        |p: PlaylistModel| !(p.kind is Library),
                    ));
                }
            }
            i = i + 1;
        }
        proof {
            assert(self@.subrange(0, n as int) =~= self@);
        }
        r
    }

    /// Rename the playlist with this id; the library keeps its name.
    pub fn rename(&mut self, id: u32, new_name: String) -> (r: Result<(), PlaylistError>)
        ensures
            first_where(old(self)@, pl_id_pred(id)) is None ==> r == Err::<(), PlaylistError>(
                PlaylistError::NotFound(id),
            ) && final(self)@ == old(self)@,
            first_where(old(self)@, pl_id_pred(id)) matches Some(i) ==> (
            old(self)@[i].kind is Library ==> r == Err::<(), PlaylistError>(
                PlaylistError::CannotModifyLibrary,
            ) && final(self)@ == old(self)@),
            first_where(old(self)@, pl_id_pred(id)) matches Some(i) ==> (!(
            old(self)@[i].kind is Library) ==> r == Ok::<(), PlaylistError>(()) && final(self)@
                == old(self)@.update(i, (PlaylistModel { name: new_name@, ..old(self)@[i] }))),
    {
        let i = match self.find_index(id) {
            Some(i) => i,
            None => {
                return Err(PlaylistError::NotFound(id));
            },
        };
        if self.playlists[i].is_library() {
            return Err(PlaylistError::CannotModifyLibrary);
        }
        let mut p = self.playlists.remove(i);
        p.set_name(new_name);
        self.playlists.insert(i, p);
        proof {
            assert(self@ =~= old(self)@.update(
                i as int,
                (PlaylistModel { name: new_name@, ..old(self)@[i as int] }),
            ));
        }
        Ok(())
    }

    /// Delete every playlist with this id; the library cannot be deleted.
    pub fn delete(&mut self, id: u32) -> (r: Result<(), PlaylistError>)
        ensures
            first_where(old(self)@, pl_id_pred(id)) is None ==> r == Err::<(), PlaylistError>(
                PlaylistError::NotFound(id),
            ) && final(self)@ == old(self)@,
            first_where(old(self)@, pl_id_pred(id)) matches Some(i) ==> (
            old(self)@[i].kind is Library ==> r == Err::<(), PlaylistError>(
                PlaylistError::CannotModifyLibrary,
            ) && final(self)@ == old(self)@),
            first_where(old(self)@, pl_id_pred(id)) matches Some(i) ==> (!(
            old(self)@[i].kind is Library) ==> r == Ok::<(), PlaylistError>(()) && final(self)@
                == old(self)@.filter(|p: PlaylistModel| p.id != id)),
    {
        let i = match self.find_index(id) {
            Some(i) => i,
            None => {
                return Err(PlaylistError::NotFound(id));
            },
        };
        if self.playlists[i].is_library() {
            return Err(PlaylistError::CannotModifyLibrary);
        }
        let mut kept: Vec<Playlist> = Vec::new();
        let n = self.playlists.len();
        let mut j: usize = 0;
        proof {
            assert(self@.subrange(0, 0) =~= Seq::<PlaylistModel>::empty());
            assert(kept@.map_values(|p: Playlist| p@) =~= self@.subrange(0, 0).filter(
                |p: PlaylistModel| p.id != id,
            ));
        }
        while j < n
            invariant
                j <= n,
                n == self@.len(),
                self@ == old(self)@,
                kept@.map_values(|p: Playlist| p@) == self@.subrange(0, j as int).filter(
                    |p: PlaylistModel| p.id != id,
                ),
            decreases n - j,
        {
            proof {
                reveal(Seq::filter);
                assert(self@.subrange(0, j + 1).drop_last() =~= self@.subrange(0, j as int));
            }
            if self.playlists[j].id() != id {
                kept.push(self.playlists[j].clone());
            }
            proof {
                assert(kept@.map_values(|p: Playlist| p@) =~= self@.subrange(0, j + 1).filter(
                    |p: PlaylistModel| p.id != id,
                ));
            }
            j = j + 1;
        }
        proof {
            assert(self@.subrange(0, n as int) =~= self@);
        }
        self.playlists = kept;
        Ok(())
    }

    /// Append these tracks to the playlist with this id.
    pub fn add_tracks(&mut self, playlist_id: u32, tracks: Vec<Track>) -> (r: Result<
        (),
        PlaylistError,
    >)
        ensures
            first_where(old(self)@, pl_id_pred(playlist_id)) is None ==> r == Err::<
                (),
                PlaylistError,
            >(PlaylistError::NotFound(playlist_id)) && final(self)@ == old(self)@,
            first_where(old(self)@, pl_id_pred(playlist_id)) matches Some(i) ==> r == Ok::<
                (),
                PlaylistError,
            >(()) && final(self)@ == old(self)@.update(
                i,
                (PlaylistModel { tracks: old(self)@[i].tracks + tracks@, ..old(self)@[i] }),
            ),
    {
        let i = match self.find_index(playlist_id) {
            Some(i) => i,
            None => {
                return Err(PlaylistError::NotFound(playlist_id));
            },
        };
        let mut p = self.playlists.remove(i);
        let ghost base = p@.tracks;
        let mut remaining = tracks;
        let ghost all = remaining@;
        let ghost mut done: int = 0;
        while remaining.len() > 0
            invariant
                0 <= done <= all.len(),
                remaining@ == all.skip(done),
                p@.id == old(self)@[first_where(old(self)@, pl_id_pred(playlist_id))->Some_0].id,
                p@.name == old(self)@[first_where(old(self)@, pl_id_pred(playlist_id))->Some_0].name,
                p@.kind == old(self)@[first_where(old(self)@, pl_id_pred(playlist_id))->Some_0].kind,
                p@.tracks == base + all.subrange(0, done),
                base == old(self)@[first_where(old(self)@, pl_id_pred(playlist_id))->Some_0].tracks,
            decreases remaining@.len(),
        {
            let ghost prev = remaining@;
            let t = remaining.remove(0);
            proof {
                assert(all.skip(done)[0] == all[done]);
                assert(t == all[done]);
                assert(remaining@ =~= prev.skip(1));
                assert(remaining@ =~= all.skip(done + 1));
            }
            p.push(t);
            proof {
                assert(p@.tracks =~= base + all.subrange(0, done + 1));
            }
            proof {
                done = done + 1;
            }
        }
        proof {
            assert(all.skip(done).len() == 0);
            assert(all.subrange(0, done) =~= all);
        }
        self.playlists.insert(i, p);
        proof {
            let fi = first_where(old(self)@, pl_id_pred(playlist_id))->Some_0;
            assert(self@ =~= old(self)@.update(
                fi,
                (PlaylistModel { tracks: old(self)@[fi].tracks + all, ..old(self)@[fi] }),
            ));
        }
        Ok(())
    }

    /// Drop the selected tracks from the playlist with this id; the library
    /// cannot be edited.
    pub fn remove_selected(&mut self, playlist_id: u32) -> (r: Result<(), PlaylistError>)
        ensures
            first_where(old(self)@, pl_id_pred(playlist_id)) is None ==> r == Err::<
                (),
                PlaylistError,
            >(PlaylistError::NotFound(playlist_id)) && final(self)@ == old(self)@,
            first_where(old(self)@, pl_id_pred(playlist_id)) matches Some(i) ==> (
            old(self)@[i].kind is Library ==> r == Err::<(), PlaylistError>(
                PlaylistError::CannotModifyLibrary,
            ) && final(self)@ == old(self)@),
            first_where(old(self)@, pl_id_pred(playlist_id)) matches Some(i) ==> (!(
            old(self)@[i].kind is Library) ==> r == Ok::<(), PlaylistError>(()) && final(self)@
                == old(self)@.update(
                i,
                (PlaylistModel {
                    tracks: old(self)@[i].tracks.filter(|t: Track| !t.selected),
                    ..old(self)@[i]
                }),
            )),
    {
        let i = match self.find_index(playlist_id) {
            Some(i) => i,
            None => {
                return Err(PlaylistError::NotFound(playlist_id));
            },
        };
        if self.playlists[i].is_library() {
            return Err(PlaylistError::CannotModifyLibrary);
        }
        let mut p = self.playlists.remove(i);
        p.remove_selected();
        self.playlists.insert(i, p);
        proof {
            let fi = first_where(old(self)@, pl_id_pred(playlist_id))->Some_0;
            assert(self@ =~= old(self)@.update(
                fi,
                (PlaylistModel {
                    tracks: old(self)@[fi].tracks.filter(|t: Track| !t.selected),
                    ..old(self)@[fi]
                }),
            ));
        }
        Ok(())
    }

    /// Sort the playlist with this id by the chosen column and direction.
    pub fn sort(&mut self, playlist_id: u32, by: SortBy, dir: SortDirection) -> (r: Result<
        (),
        PlaylistError,
    >)
        ensures
            first_where(old(self)@, pl_id_pred(playlist_id)) is None ==> r == Err::<
                (),
                PlaylistError,
            >(PlaylistError::NotFound(playlist_id)) && final(self)@ == old(self)@,
            first_where(old(self)@, pl_id_pred(playlist_id)) matches Some(i) ==> r == Ok::<
                (),
                PlaylistError,
            >(()) && final(self)@.len() == old(self)@.len() && final(self)@[i].id == old(self)@[i].id && final(self)@[i].name == old(self)@[i].name && final(self)@[i].kind == old(self)@[i].kind && final(self)@[i].tracks.to_multiset() == old(self)@[i].tracks.to_multiset() && sorted_tracks(final(self)@[i].tracks, by, dir) && (
            forall|j: int| 0 <= j < old(self)@.len() && j != i ==> final(self)@[j] == old(self)@[j]),
    {
        let i = match self.find_index(playlist_id) {
            Some(i) => i,
            None => {
                return Err(PlaylistError::NotFound(playlist_id));
            },
        };
        let mut p = self.playlists.remove(i);
        p.sort(by, dir);
        self.playlists.insert(i, p);
        proof {
            assert(forall|j: int|
                0 <= j < old(self)@.len() && j != i as int ==> self@[j] == old(self)@[j]);
        }
        Ok(())
    }

    /// Mark every track of the playlist with this id as selected.
    pub fn select_all(&mut self, playlist_id: u32) -> (r: Result<(), PlaylistError>)
        ensures
            first_where(old(self)@, pl_id_pred(playlist_id)) is None ==> r == Err::<
                (),
                PlaylistError,
            >(PlaylistError::NotFound(playlist_id)) && final(self)@ == old(self)@,
            first_where(old(self)@, pl_id_pred(playlist_id)) matches Some(i) ==> r == Ok::<
                (),
                PlaylistError,
            >(()) && final(self)@.len() == old(self)@.len() && (forall|j: int|
                0 <= j < old(self)@.len() && j != i ==> final(self)@[j] == old(self)@[j]) && final(self)@[i].id == old(self)@[i].id && final(self)@[i].tracks.len() == old(self)@[i].tracks.len() && (forall|k: int|
                0 <= k < old(self)@[i].tracks.len() ==> final(self)@[i].tracks[k]
                    == crate::playlist::with_selected(old(self)@[i].tracks[k], true)),
    {
        let i = match self.find_index(playlist_id) {
            Some(i) => i,
            None => {
                return Err(PlaylistError::NotFound(playlist_id));
            },
        };
        let mut p = self.playlists.remove(i);
        p.select_all();
        self.playlists.insert(i, p);
        Ok(())
    }

    /// Clear every selection in the playlist with this id.
    pub fn clear_selection(&mut self, playlist_id: u32) -> (r: Result<(), PlaylistError>)
        ensures
            first_where(old(self)@, pl_id_pred(playlist_id)) is None ==> r == Err::<
                (),
                PlaylistError,
            >(PlaylistError::NotFound(playlist_id)) && final(self)@ == old(self)@,
            first_where(old(self)@, pl_id_pred(playlist_id)) matches Some(i) ==> r == Ok::<
                (),
                PlaylistError,
            >(()) && final(self)@.len() == old(self)@.len() && (forall|j: int|
                0 <= j < old(self)@.len() && j != i ==> final(self)@[j] == old(self)@[j]) && final(self)@[i].id == old(self)@[i].id && final(self)@[i].tracks.len() == old(self)@[i].tracks.len() && (forall|k: int|
                0 <= k < old(self)@[i].tracks.len() ==> final(self)@[i].tracks[k]
                    == crate::playlist::with_selected(old(self)@[i].tracks[k], false)),
    {
        let i = match self.find_index(playlist_id) {
            Some(i) => i,
            None => {
                return Err(PlaylistError::NotFound(playlist_id));
            },
        };
        let mut p = self.playlists.remove(i);
        p.clear_selected();
        self.playlists.insert(i, p);
        Ok(())
    }

    /// Mark one track of the playlist with this id as selected.
    pub fn select_track(&mut self, playlist_id: u32, index: usize) -> (r: Result<
        (),
        PlaylistError,
    >)
        ensures
            first_where(old(self)@, pl_id_pred(playlist_id)) is None ==> r == Err::<
                (),
                PlaylistError,
            >(PlaylistError::NotFound(playlist_id)) && final(self)@ == old(self)@,
            first_where(old(self)@, pl_id_pred(playlist_id)) matches Some(i) ==> (index
                >= old(self)@[i].tracks.len() ==> r == Err::<(), PlaylistError>(
                PlaylistError::IndexOutOfBounds,
            ) && final(self)@ == old(self)@),
            first_where(old(self)@, pl_id_pred(playlist_id)) matches Some(i) ==> (index < old(self)@[i].tracks.len() ==> r == Ok::<(), PlaylistError>(()) && final(self)@ == old(self)@.update(
                i,
                (PlaylistModel {
                    tracks: old(self)@[i].tracks.update(
                        index as int,
                        crate::playlist::with_selected(old(self)@[i].tracks[index as int], true),
                    ),
                    ..old(self)@[i]
                }),
            )),
    {
        self.set_track_selected(playlist_id, index, true)
    }

    /// Clear one track's selection in the playlist with this id.
    pub fn deselect_track(&mut self, playlist_id: u32, index: usize) -> (r: Result<
        (),
        PlaylistError,
    >)
        ensures
            first_where(old(self)@, pl_id_pred(playlist_id)) is None ==> r == Err::<
                (),
                PlaylistError,
            >(PlaylistError::NotFound(playlist_id)) && final(self)@ == old(self)@,
            first_where(old(self)@, pl_id_pred(playlist_id)) matches Some(i) ==> (index
                >= old(self)@[i].tracks.len() ==> r == Err::<(), PlaylistError>(
                PlaylistError::IndexOutOfBounds,
            ) && final(self)@ == old(self)@),
            first_where(old(self)@, pl_id_pred(playlist_id)) matches Some(i) ==> (index < old(self)@[i].tracks.len() ==> r == Ok::<(), PlaylistError>(()) && final(self)@ == old(self)@.update(
                i,
                (PlaylistModel {
                    tracks: old(self)@[i].tracks.update(
                        index as int,
                        crate::playlist::with_selected(old(self)@[i].tracks[index as int], false),
                    ),
                    ..old(self)@[i]
                }),
            )),
    {
        self.set_track_selected(playlist_id, index, false)
    }

    fn set_track_selected(&mut self, playlist_id: u32, index: usize, b: bool) -> (r: Result<
        (),
        PlaylistError,
    >)
        ensures
            first_where(old(self)@, pl_id_pred(playlist_id)) is None ==> r == Err::<
                (),
                PlaylistError,
            >(PlaylistError::NotFound(playlist_id)) && final(self)@ == old(self)@,
            first_where(old(self)@, pl_id_pred(playlist_id)) matches Some(i) ==> (index
                >= old(self)@[i].tracks.len() ==> r == Err::<(), PlaylistError>(
                PlaylistError::IndexOutOfBounds,
            ) && final(self)@ == old(self)@),
            first_where(old(self)@, pl_id_pred(playlist_id)) matches Some(i) ==> (index < old(self)@[i].tracks.len() ==> r == Ok::<(), PlaylistError>(()) && final(self)@ == old(self)@.update(
                i,
                (PlaylistModel {
                    tracks: old(self)@[i].tracks.update(
                        index as int,
                        crate::playlist::with_selected(old(self)@[i].tracks[index as int], b),
                    ),
                    ..old(self)@[i]
                }),
            )),
    {
        let i = match self.find_index(playlist_id) {
            Some(i) => i,
            None => {
                return Err(PlaylistError::NotFound(playlist_id));
            },
        };
        if index >= self.playlists[i].len() {
            return Err(PlaylistError::IndexOutOfBounds);
        }
        let mut p = self.playlists.remove(i);
        if b {
            p.select(index);
        } else {
            p.deselect(index);
        }
        self.playlists.insert(i, p);
        proof {
            let fi = first_where(old(self)@, pl_id_pred(playlist_id))->Some_0;
            assert(self@ =~= old(self)@.update(
                fi,
                (PlaylistModel {
                    tracks: old(self)@[fi].tracks.update(
                        index as int,
                        crate::playlist::with_selected(old(self)@[fi].tracks[index as int], b),
                    ),
                    ..old(self)@[fi]
                }),
            ));
        }
        Ok(())
    }

    /// Mark the inclusive span between `start` and `end` (in either order)
    /// of the playlist with this id as selected.
    pub fn select_range(&mut self, playlist_id: u32, start: usize, end: usize) -> (r: Result<
        (),
        PlaylistError,
    >)
        requires
            first_where(old(self)@, pl_id_pred(playlist_id)) matches Some(i) ==> (start < end
                ==> end < old(self)@[i].tracks.len()) && (end < start ==> start < old(self)@[i].tracks.len()),
        ensures
            first_where(old(self)@, pl_id_pred(playlist_id)) is None ==> r == Err::<
                (),
                PlaylistError,
            >(PlaylistError::NotFound(playlist_id)) && final(self)@ == old(self)@,
            first_where(old(self)@, pl_id_pred(playlist_id)) matches Some(i) ==> r == Ok::<
                (),
                PlaylistError,
            >(()) && final(self)@.len() == old(self)@.len() && (forall|j: int|
                0 <= j < old(self)@.len() && j != i ==> final(self)@[j] == old(self)@[j]) && final(self)@[i].id == old(self)@[i].id && final(self)@[i].tracks.len() == old(self)@[i].tracks.len() && (forall|k: int|
                0 <= k < old(self)@[i].tracks.len() ==> final(self)@[i].tracks[k] == (
                if crate::playlist::in_span(start as int, end as int, k) {
                    crate::playlist::with_selected(old(self)@[i].tracks[k], true)
                } else {
                    old(self)@[i].tracks[k]
                })),
    {
        let i = match self.find_index(playlist_id) {
            Some(i) => i,
            None => {
                return Err(PlaylistError::NotFound(playlist_id));
            },
        };
        let mut p = self.playlists.remove(i);
        p.select_range(start, end);
        self.playlists.insert(i, p);
        Ok(())
    }
}

} // verus!
