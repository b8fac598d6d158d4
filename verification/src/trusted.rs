//! The points where the library leans on outside crates: randomness, the
//! clock, and file-URI construction. The contracts stated here are believed,
//! not proved; everything else in the crate is proved against them.

use crate::playlist::Track;
use rand::seq::SliceRandom;
use vstd::prelude::*;

verus! {

/// The `file://` URI that `url::Url::from_file_path` builds from a path: a
/// function of the path alone. `None` where the path is not absolute.
pub uninterp spec fn file_uri_of(path: Seq<char>) -> Option<Seq<char>>;

/// Relies on `url::Url::from_file_path` (and `From<Url> for String`): an
/// absolute path maps to exactly one `file://` URI; a relative path to none.
#[verifier::external_body]
pub(crate) fn path_to_uri(path: &String) -> (r: Option<String>)
    ensures
        r matches Some(u) ==> file_uri_of(path@) == Some(u@),
        r is None ==> file_uri_of(path@) is None,
{
    match url::Url::from_file_path(std::path::Path::new(path.as_str())) {
        Ok(u) => Some(String::from(u)),
        Err(()) => None,
    }
}

/// Relies on `rand::seq::SliceRandom::shuffle`: permutes the slice in place,
/// so the elements form the same multiset and the length is unchanged.
#[verifier::external_body]
pub(crate) fn shuffle_tracks(v: &mut Vec<Track>)
    ensures
        final(v)@.to_multiset() == old(v)@.to_multiset(),
        final(v)@.len() == old(v)@.len(),
{
    v.shuffle(&mut rand::rng());
}

/// Relies on `rand::random`: an arbitrary 32-bit value; nothing is promised
/// of it.
#[verifier::external_body]
pub(crate) fn random_u32() -> (r: u32) {
    rand::random()
}

/// Relies on `chrono::Local::now`: the current local date and time, rendered
/// as text; nothing is promised of the value.
#[verifier::external_body]
pub(crate) fn local_now_string() -> (r: String) {
    chrono::Local::now().to_string()
}

} // verus!
