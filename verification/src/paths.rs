use vstd::prelude::*;
use vstd::string::StringExecFns;

verus! {

/// What `std::path::Path::join` makes of `base` and `path` (as text), with
/// the path separator of the platform the library is built for.
pub uninterp spec fn path_join(base: Seq<char>, path: Seq<char>) -> Seq<char>;

/// Whether `std::path::Path::is_absolute` holds of `path` (as text).
pub uninterp spec fn path_is_absolute(path: Seq<char>) -> bool;

/// What `std::path::Path::strip_prefix` makes of `path` and `prefix` (as
/// text): the rest of `path` after the components of `prefix`, if it starts
/// with them.
pub uninterp spec fn path_strip_prefix(path: Seq<char>, prefix: Seq<char>) -> Option<Seq<char>>;

/// `std::path::Path::join` on paths given as text. Its documentation says
/// that an absolute `path` replaces `base`; this contract claims that, and
/// names the result otherwise. The inputs are UTF-8, so the joined path is
/// too and the conversion back to text loses nothing.
#[verifier::external_body]
pub(crate) fn join_path(base: &str, path: &str) -> (joined: String)
    ensures
        joined@ == path_join(base@, path@),
        path_is_absolute(path@) ==> joined@ == path@,
{
    std::path::Path::new(base).join(path).to_string_lossy().into_owned()
}

/// `std::path::Path::is_absolute` on a path given as text; the contract only
/// names the answer.
#[verifier::external_body]
fn is_absolute_path(path: &str) -> (absolute: bool)
    ensures
        absolute == path_is_absolute(path@),
{
    std::path::Path::new(path).is_absolute()
}

/// `std::path::Path::strip_prefix` on paths given as text; the contract
/// names the answer (`None` where the source returns its error).
#[verifier::external_body]
fn strip_path_prefix(path: &str, prefix: &str) -> (rest: Option<String>)
    ensures
        match rest {
            Some(r) => path_strip_prefix(path@, prefix@) == Some(r@),
            None => path_strip_prefix(path@, prefix@) == None::<Seq<char>>,
        },
{
    match std::path::Path::new(path).strip_prefix(prefix) {
        Ok(rest) => Some(rest.to_string_lossy().into_owned()),
        Err(_) => None,
    }
}

/// Where the game keeps its data (assets, levels, log) and its configuration.
pub struct GamePaths {
    pub data_dir: String,
    pub config_dir: String,
}

/// The directory below the assets that holds the configuration.
pub open spec fn config_subdir() -> Seq<char> {
    "config"@
}

impl GamePaths {
    /// The paths of a development build: everything under `assets_dir`, the
    /// configuration in its `config` directory.
    pub fn from_assets_dir(assets_dir: &str) -> (paths: GamePaths)
        ensures
            paths.data_dir@ == assets_dir@,
            paths.config_dir@ == path_join(assets_dir@, config_subdir()),
    {
        proof {
            reveal_strlit("config");
        }
        GamePaths {
            data_dir: String::from_str(assets_dir),
            config_dir: join_path(assets_dir, "config"),
        }
    }

    /// The path of an asset, relative to the data directory (an absolute
    /// `path` replaces it).
    pub fn asset(&self, path: &str) -> (full: String)
        ensures
            full@ == path_join(self.data_dir@, path@),
            path_is_absolute(path@) ==> full@ == path@,
    {
        join_path(self.data_dir.as_str(), path)
    }

    /// The path of a data file: an absolute `path` as it is, a relative one
    /// under the data directory.
    pub fn data_file(&self, path: &str) -> (full: String)
        ensures
            full@ == if path_is_absolute(path@) {
                path@
            } else {
                path_join(self.data_dir@, path@)
            },
    {
        if is_absolute_path(path) {
            String::from_str(path)
        } else {
            join_path(self.data_dir.as_str(), path)
        }
    }

    /// The path of a configuration file, relative to the configuration directory.
    pub fn config(&self, path: &str) -> (full: String)
        ensures
            full@ == path_join(self.config_dir@, path@),
    {
        join_path(self.config_dir.as_str(), path)
    }

    /// Where a bundled asset file at `relative` is installed: files under
    /// `config` go to the configuration directory (without that first
    /// component), all others under the data directory.
    pub fn install_target(&self, relative: &str) -> (target: String)
        ensures
            target@ == match path_strip_prefix(relative@, config_subdir()) {
                Some(rest) => path_join(self.config_dir@, rest),
                None => path_join(self.data_dir@, relative@),
            },
    {
        proof {
            reveal_strlit("config");
        }
        match strip_path_prefix(relative, "config") {
            Some(rest) => join_path(self.config_dir.as_str(), rest.as_str()),
            None => join_path(self.data_dir.as_str(), relative),
        }
    }
}

} // verus!
