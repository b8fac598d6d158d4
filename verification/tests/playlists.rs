use ethereal_waves::playlist::{Playlist, SortBy, SortDirection, Track};
use ethereal_waves::playlist_service::{PlaylistError, PlaylistService};

fn named_track(title: Option<&str>, artist: Option<&str>, number: Option<u32>, n: u32) -> Track {
    let mut t = Track::new();
    t.path = format!("/{}.mp3", n);
    t.entry_id = n;
    t.metadata.id = Some(format!("id{}", n));
    t.metadata.title = title.map(|s| s.to_string());
    t.metadata.artist = artist.map(|s| s.to_string());
    t.metadata.album = Some("One Album".to_string());
    t.metadata.track_number = number;
    t
}

#[test]
fn new_playlist_is_an_empty_user_list_with_a_nonzero_id() {
    let p = Playlist::new("road trip".to_string());
    assert_ne!(p.id(), 0);
    assert_eq!(p.name(), "road trip");
    assert!(!p.is_library());
    assert_eq!(p.len(), 0);
}

#[test]
fn the_library_playlist_uses_the_sentinel_id() {
    let lib = Playlist::library();
    assert_eq!(lib.id(), u32::MAX);
    assert!(lib.is_library());
    assert_eq!(lib.name(), "Library");
}

#[test]
fn push_clear_and_rename() {
    let mut p = Playlist::new("a".to_string());
    p.push(named_track(Some("x"), None, None, 1));
    p.push(named_track(Some("y"), None, None, 2));
    assert_eq!(p.len(), 2);
    assert_eq!(p.tracks()[0].metadata.title.as_deref(), Some("x"));
    p.set_name("b".to_string());
    assert_eq!(p.name(), "b");
    p.clear();
    assert_eq!(p.len(), 0);
}

#[test]
fn selection_marks_and_removal() {
    let mut p = Playlist::new("sel".to_string());
    for i in 1..=4 {
        p.push(named_track(Some("t"), None, None, i));
    }
    p.select(1);
    p.select(3);
    let selected = p.selected();
    assert_eq!(selected.len(), 2);
    assert_eq!(selected[0].entry_id, 2);
    assert_eq!(selected[1].entry_id, 4);
    p.deselect(3);
    assert_eq!(p.selected().len(), 1);
    p.select_all();
    assert_eq!(p.selected().len(), 4);
    p.clear_selected();
    assert_eq!(p.selected().len(), 0);
    p.select(0);
    p.remove_selected();
    assert_eq!(p.len(), 3);
    assert_eq!(p.tracks()[0].entry_id, 2);
}

#[test]
fn select_range_works_in_both_directions() {
    let mut p = Playlist::new("range".to_string());
    for i in 1..=5 {
        p.push(named_track(Some("t"), None, None, i));
    }
    p.select_range(1, 3);
    let picked: Vec<u32> = p.selected().iter().map(|t| t.entry_id).collect();
    assert_eq!(picked, vec![2, 3, 4]);
    p.clear_selected();
    p.select_range(3, 1);
    let picked: Vec<u32> = p.selected().iter().map(|t| t.entry_id).collect();
    assert_eq!(picked, vec![2, 3, 4]);
    p.clear_selected();
    p.select_range(2, 2);
    assert!(p.selected().is_empty());
}

#[test]
fn sort_by_title_orders_missing_titles_first() {
    let mut p = Playlist::new("titles".to_string());
    p.push(named_track(Some("cherry"), None, None, 1));
    p.push(named_track(None, None, None, 2));
    p.push(named_track(Some("apple"), None, None, 3));
    p.sort(SortBy::Title, SortDirection::Ascending);
    let ids: Vec<u32> = p.tracks().iter().map(|t| t.entry_id).collect();
    assert_eq!(ids, vec![2, 3, 1]);
    p.sort(SortBy::Title, SortDirection::Descending);
    let ids: Vec<u32> = p.tracks().iter().map(|t| t.entry_id).collect();
    assert_eq!(ids, vec![1, 3, 2]);
}

#[test]
fn sort_by_artist_breaks_ties_by_track_number() {
    let mut p = Playlist::new("artists".to_string());
    p.push(named_track(Some("z"), Some("Band"), Some(3), 1));
    p.push(named_track(Some("y"), Some("Aces"), Some(1), 2));
    p.push(named_track(Some("x"), Some("Band"), Some(1), 3));
    p.sort(SortBy::Artist, SortDirection::Ascending);
    let ids: Vec<u32> = p.tracks().iter().map(|t| t.entry_id).collect();
    assert_eq!(ids, vec![2, 3, 1]);
}

#[test]
fn sort_keeps_every_track() {
    let mut p = Playlist::new("keep".to_string());
    for i in 1..=6 {
        p.push(named_track(Some(&format!("t{}", 9 - i)), None, None, i));
    }
    p.sort(SortBy::Title, SortDirection::Ascending);
    let mut ids: Vec<u32> = p.tracks().iter().map(|t| t.entry_id).collect();
    ids.sort();
    assert_eq!(ids, vec![1, 2, 3, 4, 5, 6]);
}

#[test]
fn fresh_tracks_start_empty_and_unselected() {
    let t = Track::new();
    assert_eq!(t.path, "");
    assert!(!t.selected);
    assert!(t.metadata.id.is_none());
    assert!(t.metadata.title.is_none());
}

#[test]
fn regenerating_the_entry_id_keeps_the_rest() {
    let mut t = named_track(Some("same"), None, None, 7);
    let path = t.path.clone();
    let date = t.date_added.clone();
    t.generate_entry_id();
    assert_eq!(t.path, path);
    assert_eq!(t.date_added, date);
    assert_eq!(t.metadata.title.as_deref(), Some("same"));
}

#[test]
fn service_load_all_puts_the_library_first() {
    let mut svc = PlaylistService::new();
    let user = Playlist::new("mine".to_string());
    let user_id = user.id();
    svc.load_all(vec![named_track(Some("t"), None, None, 1)], vec![user]);
    let all = svc.all();
    assert_eq!(all.len(), 2);
    assert!(all[0].is_library());
    assert_eq!(all[0].len(), 1);
    assert_eq!(all[1].id(), user_id);
    assert!(svc.get_library().is_ok());
    let users = svc.user_playlists();
    assert_eq!(users.len(), 1);
    assert_eq!(users[0].id(), user_id);
}

#[test]
fn service_create_refuses_duplicate_names() {
    let mut svc = PlaylistService::new();
    let id = svc.create("night".to_string()).unwrap();
    assert_ne!(id, 0);
    assert_eq!(
        svc.create("night".to_string()),
        Err(PlaylistError::NameExists)
    );
    assert!(svc.create("day".to_string()).is_ok());
    assert_eq!(svc.all().len(), 2);
}

#[test]
fn service_rename_guards_the_library() {
    let mut svc = PlaylistService::new();
    svc.load_all(vec![], vec![]);
    assert_eq!(
        svc.rename(u32::MAX, "other".to_string()),
        Err(PlaylistError::CannotModifyLibrary)
    );
    let id = svc.create("work".to_string()).unwrap();
    assert_eq!(svc.rename(id, "walk".to_string()), Ok(()));
    assert_eq!(svc.get(id).unwrap().name(), "walk");
    assert_eq!(
        svc.rename(0, "x".to_string()),
        Err(PlaylistError::NotFound(0))
    );
}

#[test]
fn service_delete_removes_user_playlists_only() {
    let mut svc = PlaylistService::new();
    svc.load_all(vec![], vec![]);
    assert_eq!(
        svc.delete(u32::MAX),
        Err(PlaylistError::CannotModifyLibrary)
    );
    let id = svc.create("gone".to_string()).unwrap();
    assert_eq!(svc.delete(id), Ok(()));
    assert_eq!(svc.all().len(), 1);
    assert_eq!(svc.delete(id), Err(PlaylistError::NotFound(id)));
}

#[test]
fn service_add_tracks_appends_in_order() {
    let mut svc = PlaylistService::new();
    let id = svc.create("adds".to_string()).unwrap();
    svc.add_tracks(
        id,
        vec![
            named_track(Some("one"), None, None, 1),
            named_track(Some("two"), None, None, 2),
        ],
    )
    .unwrap();
    let p = svc.get(id).unwrap();
    assert_eq!(p.len(), 2);
    assert_eq!(p.tracks()[1].metadata.title.as_deref(), Some("two"));
}

#[test]
fn service_remove_selected_guards_the_library() {
    let mut svc = PlaylistService::new();
    svc.load_all(vec![named_track(Some("t"), None, None, 1)], vec![]);
    assert_eq!(
        svc.remove_selected(u32::MAX),
        Err(PlaylistError::CannotModifyLibrary)
    );
    let id = svc.create("trim".to_string()).unwrap();
    svc.add_tracks(
        id,
        vec![
            named_track(Some("one"), None, None, 1),
            named_track(Some("two"), None, None, 2),
        ],
    )
    .unwrap();
    svc.select_track(id, 0).unwrap();
    svc.remove_selected(id).unwrap();
    let p = svc.get(id).unwrap();
    assert_eq!(p.len(), 1);
    assert_eq!(p.tracks()[0].metadata.title.as_deref(), Some("two"));
}

#[test]
fn service_select_track_checks_bounds() {
    let mut svc = PlaylistService::new();
    let id = svc.create("bounds".to_string()).unwrap();
    svc.add_tracks(id, vec![named_track(Some("one"), None, None, 1)])
        .unwrap();
    assert_eq!(
        svc.select_track(id, 5),
        Err(PlaylistError::IndexOutOfBounds)
    );
    assert_eq!(svc.select_track(id, 0), Ok(()));
    assert_eq!(svc.get(id).unwrap().selected().len(), 1);
    assert_eq!(svc.deselect_track(id, 0), Ok(()));
    assert_eq!(svc.get(id).unwrap().selected().len(), 0);
}

#[test]
fn service_selection_helpers_cover_the_whole_list() {
    let mut svc = PlaylistService::new();
    let id = svc.create("all".to_string()).unwrap();
    svc.add_tracks(
        id,
        vec![
            named_track(Some("one"), None, None, 1),
            named_track(Some("two"), None, None, 2),
            named_track(Some("three"), None, None, 3),
        ],
    )
    .unwrap();
    svc.select_all(id).unwrap();
    assert_eq!(svc.get(id).unwrap().selected().len(), 3);
    svc.clear_selection(id).unwrap();
    assert_eq!(svc.get(id).unwrap().selected().len(), 0);
    svc.select_range(id, 2, 0).unwrap();
    assert_eq!(svc.get(id).unwrap().selected().len(), 3);
}

#[test]
fn service_sort_orders_one_playlist() {
    let mut svc = PlaylistService::new();
    let id = svc.create("sorted".to_string()).unwrap();
    svc.add_tracks(
        id,
        vec![
            named_track(Some("b"), None, None, 1),
            named_track(Some("a"), None, None, 2),
        ],
    )
    .unwrap();
    svc.sort(id, SortBy::Title, SortDirection::Ascending).unwrap();
    let p = svc.get(id).unwrap();
    assert_eq!(p.tracks()[0].metadata.title.as_deref(), Some("a"));
}
