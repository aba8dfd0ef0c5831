use vstd::prelude::*;

use crate::text::has_suffix;

verus! {

#[verifier::external_type_specification]
#[verifier::external_body]
pub struct ExBaseDirectories(xdg::BaseDirectories);

#[verifier::external_type_specification]
#[verifier::external_body]
pub struct ExBaseDirectoriesError(xdg::BaseDirectoriesError);

/// The application identifier under which the per-user base directories are namespaced.
pub const APP_PREFIX: &'static str = "stenograph";

/// How each resolved root ends: a directory named by the application identifier.
pub const APP_ROOT_SUFFIX: &'static str = "/stenograph/";

/// Whether the path `s` ends in a path separator.
pub open spec fn ends_in_separator(s: Seq<char>) -> bool {
    s.len() > 0 && s.last() == '/'
}

/// Whether the root `s` is this application's own directory: its last component is the
/// application identifier, followed by a separator.
pub open spec fn is_app_root(s: Seq<char>) -> bool {
    APP_ROOT_SUFFIX@.is_suffix_of(s)
}

/// The two per-user roots that every derived path hangs from. A well-formed value has both
/// roots ending in a path separator, so that a name appended to a root lies inside it.
#[derive(Clone, Debug)]
pub struct BaseDirs {
    pub data_home: String,
    pub cache_home: String,
}

/// The mathematical value of a `BaseDirs`.
pub struct BaseDirsView {
    pub data_home: Seq<char>,
    pub cache_home: Seq<char>,
}

impl View for BaseDirs {
    type V = BaseDirsView;

    open spec fn view(&self) -> BaseDirsView {
        BaseDirsView { data_home: self.data_home@, cache_home: self.cache_home@ }
    }
}

/// Where installed models live: `<data-home>/models`, written as the data root (which ends in
/// a separator) followed by `models`.
pub open spec fn models_dir(d: BaseDirsView) -> Seq<char> {
    d.data_home + "models"@
}

/// Where downloaded archives are cached: `<cache-home>/downloads`, written as the cache root
/// (which ends in a separator) followed by `downloads`.
pub open spec fn downloads_dir(d: BaseDirsView) -> Seq<char> {
    d.cache_home + "downloads"@
}

/// Relies on xdg::BaseDirectories::with_prefix to resolve the per-user base directories
/// from the environment; it fails when no home directory is known.
#[verifier::external_body]
fn xdg_with_prefix(prefix: &str) -> (r: Result<xdg::BaseDirectories, xdg::BaseDirectoriesError>) {
    xdg::BaseDirectories::with_prefix(prefix)
}

/// Relies on xdg::BaseDirectories::get_data_home for the prefixed data directory; `None`
/// where that path is not valid UTF-8.
#[verifier::external_body]
fn xdg_data_home(b: &xdg::BaseDirectories) -> (r: Option<String>) {
    b.get_data_home().to_str().map(String::from)
}

/// Relies on xdg::BaseDirectories::get_cache_home for the prefixed cache directory; `None`
/// where that path is not valid UTF-8.
#[verifier::external_body]
fn xdg_cache_home(b: &xdg::BaseDirectories) -> (r: Option<String>) {
    b.get_cache_home().to_str().map(String::from)
}

/// A root that is the application's own directory ends in a path separator.
pub proof fn lemma_app_root_ends_in_separator(s: Seq<char>)
    requires
        is_app_root(s),
    ensures
        ends_in_separator(s),
{
    reveal_strlit("/stenograph/");
    let suf = APP_ROOT_SUFFIX@;
    assert(s.subrange(s.len() - suf.len(), s.len() as int)[suf.len() - 1] == s.last());
}

/// Whether `s` ends in a path separator.
fn ends_with_separator(s: &str) -> (r: bool)
    ensures
        r == ends_in_separator(s@),
{
    let n = s.unicode_len();
    n > 0 && s.get_char(n - 1) == '/'
}

impl BaseDirs {
    /// Both roots end in a path separator.
    pub open spec fn wf(&self) -> bool {
        ends_in_separator(self.data_home@) && ends_in_separator(self.cache_home@)
    }

    /// Tells whether both roots end in a path separator.
    pub fn is_well_formed(&self) -> (r: bool)
        ensures
            r == self.wf(),
    {
        ends_with_separator(self.data_home.as_str()) && ends_with_separator(
            self.cache_home.as_str(),
        )
    }

    /// Resolves the application's data and cache roots from the user's environment, each
    /// namespaced by the application identifier and ending in a separator. Returns `None`
    /// when they cannot be resolved, are not valid UTF-8, or are not so namespaced.
    pub fn from_environment() -> (r: Option<BaseDirs>)
        ensures
            r matches Some(b) ==> b.wf() && is_app_root(b.data_home@) && is_app_root(
                b.cache_home@,
            ),
    {
        let b = match xdg_with_prefix(APP_PREFIX) {
            Ok(b) => b,
            Err(_) => {
                return None;
            },
        };
        let data_home = match xdg_data_home(&b) {
            Some(s) => s,
            None => {
                return None;
            },
        };
        let cache_home = match xdg_cache_home(&b) {
            Some(s) => s,
            None => {
                return None;
            },
        };
        BaseDirs::from_roots(data_home, cache_home)
    }

    /// Takes the two roots as they are where both are the application's own directories,
    /// each ending in a directory named by the application identifier; `None` otherwise.
    pub fn from_roots(data_home: String, cache_home: String) -> (r: Option<BaseDirs>)
        ensures
            r is Some <==> (is_app_root(data_home@) && is_app_root(cache_home@)),
            r matches Some(b) ==> b.data_home@ == data_home@ && b.cache_home@ == cache_home@
                && b.wf(),
    {
        if !has_suffix(data_home.as_str(), APP_ROOT_SUFFIX) || !has_suffix(
            cache_home.as_str(),
            APP_ROOT_SUFFIX,
        ) {
            return None;
        }
        proof {
            lemma_app_root_ends_in_separator(data_home@);
            lemma_app_root_ends_in_separator(cache_home@);
        }
        Some(BaseDirs { data_home, cache_home })
    }

    /// The directory that holds installed models.
    pub fn models_dir(&self) -> (r: String)
        requires
            self.wf(),
        ensures
            r@ == models_dir(self@),
    {
        self.data_home.clone().concat("models")
    }

    /// The directory that holds downloaded archives.
    pub fn downloads_dir(&self) -> (r: String)
        requires
            self.wf(),
        ensures
            r@ == downloads_dir(self@),
    {
        self.cache_home.clone().concat("downloads")
    }
}

} // verus!
