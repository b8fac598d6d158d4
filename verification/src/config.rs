//! Application configuration. Reading and writing it through the desktop
//! framework's settings store is the unverified shell's business.

use vstd::prelude::*;

verus! {

pub const CONFIG_VERSION: u64 = 1;

#[derive(Clone, Copy, Debug, PartialEq, Eq, Structural)]
pub enum AppTheme {
    Dark,
    Light,
    System,
}

/// Whether one of the paths holds exactly this text.
pub open spec fn paths_contain(paths: Seq<String>, p: Seq<char>) -> bool {
    exists|i: int| 0 <= i < paths.len() && (#[trigger] paths[i])@ == p
}

/// No two paths hold the same text.
pub open spec fn paths_unique(paths: Seq<String>) -> bool {
    forall|i: int, j: int|
        0 <= i < j < paths.len() ==> (#[trigger] paths[i])@ != (#[trigger] paths[j])@
}

/// The application's configuration: the theme, the directories the library
/// scanner walks (each listed once), and two list-rendering switches.
pub struct Config {
    pub app_theme: AppTheme,
    pub library_paths: Vec<String>,
    pub list_text_wrap: bool,
    pub list_row_align_top: bool,
}

impl Clone for Config {
    fn clone(&self) -> (r: Self)
        ensures
            r.app_theme == self.app_theme,
            r.library_paths@ == self.library_paths@,
            r.list_text_wrap == self.list_text_wrap,
            r.list_row_align_top == self.list_row_align_top,
    {
        let mut paths: Vec<String> = Vec::new();
        let n = self.library_paths.len();
        let mut i: usize = 0;
        while i < n
            invariant
                i <= n,
                n == self.library_paths@.len(),
                paths@ == self.library_paths@.subrange(0, i as int),
            decreases n - i,
        {
            paths.push(self.library_paths[i].clone());
            proof {
                assert(paths@ =~= self.library_paths@.subrange(0, i + 1));
            }
            i = i + 1;
        }
        proof {
            assert(self.library_paths@.subrange(0, n as int) =~= self.library_paths@);
        }
        Config {
            app_theme: self.app_theme,
            library_paths: paths,
            list_text_wrap: self.list_text_wrap,
            list_row_align_top: self.list_row_align_top,
        }
    }
}

impl Default for Config {
    fn default() -> (r: Self)
        ensures
            r.app_theme == AppTheme::System,
            r.library_paths@ == Seq::<String>::empty(),
            r.list_text_wrap == true,
            r.list_row_align_top == false,
    {
        Config {
            app_theme: AppTheme::System,
            library_paths: Vec::new(),
            list_text_wrap: true,
            list_row_align_top: false,
        }
    }
}

impl Config {
    /// Whether this directory is already listed.
    pub fn contains_library_path(&self, path: &str) -> (r: bool)
        ensures
            r == paths_contain(self.library_paths@, path@),
    {
        let owned = path.to_owned();
        let n = self.library_paths.len();
        let mut i: usize = 0;
        while i < n
            invariant
                i <= n,
                n == self.library_paths@.len(),
                owned@ == path@,
                forall|j: int| 0 <= j < i ==> (#[trigger] self.library_paths@[j])@ != path@,
            decreases n - i,
        {
            if self.library_paths[i] == owned {
                return true;
            }
            i = i + 1;
        }
        false
    }

    /// List a directory for scanning unless it is already listed, so that
    /// no directory is listed twice.
    pub fn add_library_path(&mut self, path: String) -> (added: bool)
        ensures
            added == !paths_contain(old(self).library_paths@, path@),
            added ==> final(self).library_paths@ == old(self).library_paths@.push(path),
            !added ==> final(self).library_paths@ == old(self).library_paths@,
            final(self).app_theme == old(self).app_theme,
            final(self).list_text_wrap == old(self).list_text_wrap,
            final(self).list_row_align_top == old(self).list_row_align_top,
            paths_unique(old(self).library_paths@) ==> paths_unique(final(self).library_paths@),
    {
        if self.contains_library_path(path.as_str()) {
            return false;
        }
        self.library_paths.push(path);
        proof {
            assert forall|i: int, j: int|
                0 <= i < j < self.library_paths@.len() && paths_unique(
                    old(self).library_paths@,
                ) implies (#[trigger] self.library_paths@[i])@ != (
            #[trigger] self.library_paths@[j])@ by {
                if j + 1 == self.library_paths@.len() {
                    assert(!paths_contain(old(self).library_paths@, self.library_paths@[j]@));
                    assert(self.library_paths@[i] == old(self).library_paths@[i]);
                }
            }
        }
        true
    }
}

} // verus!
