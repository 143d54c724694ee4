use vstd::prelude::*;
use vstd::string::StringExecFns;
use vstd::utf8::encode_utf8;
use vstd::relations::sorted_by;
use crate::order::{
    bytes_le,
    bytes_le_exec,
    lemma_bytes_le_total,
    lemma_bytes_le_transitive,
    lemma_bytes_le_reflexive,
};
use crate::paths::{path_join, join_path};

verus! {

broadcast use vstd::seq_lib::group_to_multiset_ensures;

/// What `std::path::Path::extension` gives for `path` (as text).
pub uninterp spec fn path_extension(path: Seq<char>) -> Option<Seq<char>>;

/// What `std::path::Path::file_name` gives for `path` (as text).
pub uninterp spec fn path_file_name(path: Seq<char>) -> Option<Seq<char>>;

/// `std::path::Path::extension` on a path given as text; the contract names
/// the answer.
#[verifier::external_body]
fn file_extension(path: &str) -> (ext: Option<String>)
    ensures
        match ext {
            Some(e) => path_extension(path@) == Some(e@),
            None => path_extension(path@) == None::<Seq<char>>,
        },
{
    std::path::Path::new(path).extension().map(|ext| ext.to_string_lossy().into_owned())
}

/// `std::path::Path::file_name` on a path given as text; the contract names
/// the answer.
#[verifier::external_body]
fn file_name(path: &str) -> (name: Option<String>)
    ensures
        match name {
            Some(n) => path_file_name(path@) == Some(n@),
            None => path_file_name(path@) == None::<Seq<char>>,
        },
{
    std::path::Path::new(path).file_name().map(|name| name.to_string_lossy().into_owned())
}

/// A file listed from a levels directory: a `.json` file and, when
/// `skip_templates`, one whose name does not start with `_` (those are
/// templates, such as the default level).
pub open spec fn is_listed_file(path: Seq<char>, skip_templates: bool) -> bool {
    &&& path_extension(path) == Some("json"@)
    &&& skip_templates ==> match path_file_name(path) {
        Some(name) => !(name.len() > 0 && name[0] == '_'),
        None => true,
    }
}

/// A level file: a `.json` file whose name does not start with `_`.
pub open spec fn is_level_file(path: Seq<char>) -> bool {
    is_listed_file(path, true)
}

/// Which files are levels: a `.json` file whose name does not begin with
/// `_` is a level, wherever else `_` appears in the name (as in the
/// `<name>_<stamp>.json` files of created levels); one whose name begins
/// with `_` (a template) is not, and a file of another kind is not.
pub proof fn lemma_level_files(path: Seq<char>)
    ensures
        path_extension(path) != Some("json"@) ==> !is_level_file(path),
        path_extension(path) == Some("json"@) && path_file_name(path) is None ==> is_level_file(
            path,
        ),
        forall|name: Seq<char>|
            path_extension(path) == Some("json"@) && path_file_name(path) == Some(name) ==> (
            is_level_file(path) <==> (name.len() == 0 || name[0] != '_')),
        forall|name: Seq<char>|
            path_file_name(path) == Some(name) && name.len() > 0 && name[0] == '_'
                ==> !is_level_file(path),
{
}

/// Every `.json` file is a world file, whatever its name.
pub proof fn lemma_world_files(path: Seq<char>)
    ensures
        is_listed_file(path, false) <==> path_extension(path) == Some("json"@),
{
}

/// Paths in the order of their bytes; for the entries of one directory this
/// is the order of `std::path::Path`, which compares the file names byte by
/// byte.
pub open spec fn path_le(a: Seq<char>, b: Seq<char>) -> bool {
    bytes_le(encode_utf8(a), encode_utf8(b))
}

/// The order of paths as a function, for `sorted_by`.
pub open spec fn path_order() -> spec_fn(Seq<char>, Seq<char>) -> bool {
    |a: Seq<char>, b: Seq<char>| path_le(a, b)
}

/// The texts of a sequence of strings.
pub open spec fn texts(strings: Seq<String>) -> Seq<Seq<char>> {
    strings.map_values(|s: String| s@)
}

fn is_listed_file_exec(path: &str, skip_templates: bool) -> (b: bool)
    ensures
        b == is_listed_file(path@, skip_templates),
{
    proof {
        reveal_strlit("json");
    }
    let json = match file_extension(path) {
        Some(ext) => ext.as_str().unicode_len() == 4 && ext.as_str().get_char(0) == 'j'
            && ext.as_str().get_char(1) == 's' && ext.as_str().get_char(2) == 'o'
            && ext.as_str().get_char(3) == 'n',
        None => false,
    };
    proof {
        match path_extension(path@) {
            Some(e) => {
                if e.len() == 4 && e[0] == 'j' && e[1] == 's' && e[2] == 'o' && e[3] == 'n' {
                    assert(e =~= "json"@);
                }
            },
            None => {},
        }
    }
    if !json {
        return false;
    }
    if !skip_templates {
        return true;
    }
    match file_name(path) {
        Some(name) => !(name.as_str().unicode_len() > 0 && name.as_str().get_char(0) == '_'),
        None => true,
    }
}

/// Whether `a` comes before or equals `b`.
fn path_le_exec(a: &String, b: &String) -> (le: bool)
    ensures
        le == path_le(a@, b@),
{
    bytes_le_exec(a.as_str().as_bytes(), b.as_str().as_bytes())
}

/// `sorted` with `x` inserted where the order puts it.
proof fn lemma_insert_sorted(sorted: Seq<Seq<char>>, pos: int, x: Seq<char>)
    requires
        sorted_by(sorted, path_order()),
        0 <= pos <= sorted.len(),
        forall|k: int| 0 <= k < pos ==> path_le(#[trigger] sorted[k], x),
        pos < sorted.len() ==> path_le(x, sorted[pos]),
    ensures
        sorted_by(sorted.insert(pos, x), path_order()),
{
    let r = sorted.insert(pos, x);
    assert forall|i: int, j: int| 0 <= i < j < r.len() implies #[trigger] path_order()(r[i], r[j]) by {
        if j < pos {
            assert(path_order()(sorted[i], sorted[j]));
        } else if j == pos {
            assert(path_le(sorted[i], x));
        } else if i == pos {
            if j - 1 > pos {
                assert(path_order()(sorted[pos], sorted[j - 1]));
                lemma_bytes_le_transitive(
                    encode_utf8(x),
                    encode_utf8(sorted[pos]),
                    encode_utf8(sorted[j - 1]),
                );
            }
        } else if i < pos {
            assert(path_order()(sorted[i], sorted[j - 1]));
        } else {
            assert(path_order()(sorted[i - 1], sorted[j - 1]));
        }
    }
}

/// The order of paths is a total order, so the sorted list of level files is
/// unique.
pub proof fn lemma_path_order_total()
    ensures
        vstd::relations::total_ordering(path_order()),
{
    let r = path_order();
    assert forall|a: Seq<char>| #[trigger] r(a, a) by {
        lemma_bytes_le_reflexive(encode_utf8(a));
    }
    assert forall|a: Seq<char>, b: Seq<char>| #[trigger] r(a, b) && #[trigger] r(b, a) implies a == b by {
        crate::order::lemma_bytes_le_antisymmetric(encode_utf8(a), encode_utf8(b));
        vstd::utf8::encode_utf8_decode_utf8(a);
        vstd::utf8::encode_utf8_decode_utf8(b);
    }
    assert forall|a: Seq<char>, b: Seq<char>, c: Seq<char>| #[trigger] r(a, b) && #[trigger] r(b, c) implies r(a, c) by {
        lemma_bytes_le_transitive(encode_utf8(a), encode_utf8(b), encode_utf8(c));
    }
    assert forall|a: Seq<char>, b: Seq<char>| #[trigger] r(a, b) || #[trigger] r(b, a) by {
        lemma_bytes_le_total(encode_utf8(a), encode_utf8(b));
    }
}

/// The files among `entries` that `is_listed_file` keeps, in the order of
/// their paths.
fn select_files(entries: &Vec<String>, skip_templates: bool) -> (files: Vec<String>)
    ensures
        texts(files@).to_multiset() == texts(entries@).filter(
            |p: Seq<char>| is_listed_file(p, skip_templates),
        ).to_multiset(),
        sorted_by(texts(files@), path_order()),
{
    let ghost pred = |p: Seq<char>| is_listed_file(p, skip_templates);
    let mut files: Vec<String> = Vec::new();
    let mut i: usize = 0;
    while i < entries.len()
        invariant
            0 <= i <= entries.len(),
            pred == (|p: Seq<char>| is_listed_file(p, skip_templates)),
            texts(files@).to_multiset() == texts(entries@.take(i as int)).filter(pred).to_multiset(),
            sorted_by(texts(files@), path_order()),
        decreases entries.len() - i,
    {
        let entry = &entries[i];
        let ghost seen = texts(entries@.take(i as int));
        let ghost seen_next = texts(entries@.take(i + 1));
        proof {
            assert(entries@.take(i + 1).drop_last() =~= entries@.take(i as int));
            assert(seen_next.drop_last() =~= seen);
            assert(seen_next.last() == entry@);
            reveal_with_fuel(Seq::filter, 1);
            assert(seen_next.filter(pred) == if pred(entry@) {
                seen.filter(pred).push(entry@)
            } else {
                seen.filter(pred)
            });
        }
        if is_listed_file_exec(entry.as_str(), skip_templates) {
            let mut pos: usize = 0;
            while pos < files.len() && path_le_exec(&files[pos], entry)
                invariant
                    0 <= pos <= files.len(),
                    forall|k: int| 0 <= k < pos ==> path_le(#[trigger] texts(files@)[k], entry@),
                decreases files.len() - pos,
            {
                pos = pos + 1;
            }
            proof {
                if pos < files.len() {
                    lemma_bytes_le_total(encode_utf8(entry@), encode_utf8(files@[pos as int]@));
                }
                lemma_insert_sorted(texts(files@), pos as int, entry@);
            }
            let copy = entry.clone();
            let ghost before = files@;
            files.insert(pos, copy);
            proof {
                assert(texts(files@) =~= texts(before).insert(pos as int, entry@));
            }
        }
        i = i + 1;
    }
    proof {
        assert(entries@.take(entries@.len() as int) =~= entries@);
    }
    files
}


/// The level files among the entries of the levels directory, in the order of
/// their paths.
pub fn select_level_files(entries: &Vec<String>) -> (files: Vec<String>)
    ensures
        texts(files@).to_multiset() == texts(entries@).filter(|p: Seq<char>| is_level_file(p)).to_multiset(),
        sorted_by(texts(files@), path_order()),
{
    let files = select_files(entries, true);
    proof {
        assert((|p: Seq<char>| is_listed_file(p, true)) =~= (|p: Seq<char>| is_level_file(p)));
    }
    files
}

/// The world files among the entries of the worlds directory: every `.json`
/// file, in the order of their paths.
pub fn select_world_files(entries: &Vec<String>) -> (files: Vec<String>)
    ensures
        texts(files@).to_multiset() == texts(entries@).filter(
            |p: Seq<char>| path_extension(p) == Some("json"@),
        ).to_multiset(),
        sorted_by(texts(files@), path_order()),
{
    let files = select_files(entries, false);
    proof {
        assert((|p: Seq<char>| is_listed_file(p, false)) =~= (|p: Seq<char>| path_extension(p)
            == Some("json"@)));
    }
    files
}

/// The message when no level file was found.
pub const NO_LEVELS: &'static str = "no levels were found";

/// The message when a level has no file.
pub const MISSING_LEVEL_PATH: &'static str = "missing level path";

/// The levels of the game, each with the file it was loaded from, and the
/// directory that holds them.
pub struct Levels<T> {
    levels: Vec<T>,
    paths: Vec<String>,
    dir: String,
}

impl<T> Levels<T> {
    /// The levels, in the order of their files.
    pub closed spec fn levels(self) -> Seq<T> {
        self.levels@
    }

    /// The file of each level.
    pub closed spec fn paths(self) -> Seq<Seq<char>> {
        texts(self.paths@)
    }

    /// The directory of the level files.
    pub closed spec fn dir(self) -> Seq<char> {
        self.dir@
    }

    /// Every level has its file: as many files as levels.
    pub open spec fn wf(self) -> bool {
        self.levels().len() == self.paths().len()
    }

    /// No levels, and no directory.
    pub fn new() -> (registry: Levels<T>)
        ensures
            registry.wf(),
            registry.levels() == Seq::<T>::empty(),
            registry.paths() == Seq::<Seq<char>>::empty(),
            registry.dir() == Seq::<char>::empty(),
    {
        let registry = Levels { levels: Vec::new(), paths: Vec::new(), dir: String::new() };
        proof {
            assert(texts(registry.paths@) =~= Seq::<Seq<char>>::empty());
        }
        registry
    }

    /// The registry of the levels loaded from `paths` in `dir` (one level per
    /// path, in the same order); an error if there is none.
    pub fn from_loaded(levels: Vec<T>, paths: Vec<String>, dir: String) -> (r: Result<
        Levels<T>,
        String,
    >)
        requires
            levels@.len() == paths@.len(),
        ensures
            levels@.len() == 0 <==> r is Err,
            r matches Err(e) ==> e@ == NO_LEVELS@,
            r matches Ok(registry) ==> {
                &&& registry.wf()
                &&& registry.levels() == levels@
                &&& registry.paths() == texts(paths@)
                &&& registry.dir() == dir@
            },
    {
        if levels.len() == 0 {
            return Err(String::from_str(NO_LEVELS));
        }
        Ok(Levels { levels, paths, dir })
    }

    /// How many levels there are.
    pub fn len(&self) -> (n: usize)
        ensures
            n == self.levels().len(),
    {
        self.levels.len()
    }

    /// Whether there is no level.
    pub fn is_empty(&self) -> (b: bool)
        ensures
            b == (self.levels().len() == 0),
    {
        self.levels.len() == 0
    }

    /// The levels, in the order of their files.
    pub fn as_slice(&self) -> (levels: &[T])
        ensures
            levels@ == self.levels(),
    {
        self.levels.as_slice()
    }

    /// The level at `index`, if there is one.
    pub fn get(&self, index: usize) -> (level: Option<&T>)
        ensures
            index < self.levels().len() ==> level == Some(&self.levels()[index as int]),
            index >= self.levels().len() ==> level is None,
    {
        if index < self.levels.len() {
            Some(&self.levels[index])
        } else {
            None
        }
    }

    /// The level at `index`, to be changed in place.
    pub fn get_mut(&mut self, index: usize) -> (level: &mut T)
        requires
            old(self).wf(),
            index < old(self).levels().len(),
        ensures
            *level == old(self).levels()[index as int],
            final(self).levels() == old(self).levels().update(index as int, *final(level)),
            final(self).paths() == old(self).paths(),
            final(self).dir() == old(self).dir(),
            final(self).wf(),
    {
        &mut self.levels[index]
    }

    /// The file of the level at `index`; an error if there is none.
    pub fn path(&self, index: usize) -> (r: Result<String, String>)
        ensures
            index < self.paths().len() ==> (r matches Ok(p) && p@ == self.paths()[index as int]),
            index >= self.paths().len() ==> (r matches Err(e) && e@ == MISSING_LEVEL_PATH@),
    {
        if index < self.paths.len() {
            Ok(self.paths[index].clone())
        } else {
            Err(String::from_str(MISSING_LEVEL_PATH))
        }
    }

    /// Forgets the level at `index` and its file, once the file is deleted.
    pub fn forget(&mut self, index: usize)
        requires
            old(self).wf(),
            index < old(self).levels().len(),
        ensures
            final(self).wf(),
            final(self).levels() == old(self).levels().remove(index as int),
            final(self).paths() == old(self).paths().remove(index as int),
            final(self).dir() == old(self).dir(),
    {
        let ghost old_paths = self.paths@;
        self.levels.remove(index);
        self.paths.remove(index);
        proof {
            assert(texts(self.paths@) =~= texts(old_paths).remove(index as int));
        }
    }

    /// Replaces the level at `index` with its edited version, and gives the
    /// file to write it to.
    pub fn store(&mut self, level: T, index: usize) -> (path: String)
        requires
            old(self).wf(),
            index < old(self).levels().len(),
        ensures
            final(self).wf(),
            final(self).levels() == old(self).levels().update(index as int, level),
            final(self).paths() == old(self).paths(),
            final(self).dir() == old(self).dir(),
            path@ == old(self).paths()[index as int],
    {
        self.levels.set(index, level);
        self.paths[index].clone()
    }

    /// The file of the template for new levels: `_default_level.json` in the
    /// levels directory (skipped when loading, as its name starts with `_`).
    pub fn template_path(&self) -> (path: String)
        ensures
            path@ == path_join(self.dir(), "_default_level.json"@),
    {
        proof {
            reveal_strlit("_default_level.json");
        }
        join_path(self.dir.as_str(), "_default_level.json")
    }

    /// The file for a new level named `id`: `<id>.json` in the levels directory.
    pub fn new_level_path(&self, id: &str) -> (path: String)
        ensures
            path@ == path_join(self.dir(), id@ + ".json"@),
    {
        proof {
            reveal_strlit(".json");
        }
        let mut name = String::from_str(id);
        name.append(".json");
        join_path(self.dir.as_str(), name.as_str())
    }

    /// Adds a new level saved at `path`; gives its index.
    pub fn register(&mut self, level: T, path: String) -> (index: usize)
        requires
            old(self).wf(),
        ensures
            final(self).wf(),
            final(self).levels() == old(self).levels().push(level),
            final(self).paths() == old(self).paths().push(path@),
            final(self).dir() == old(self).dir(),
            index == old(self).levels().len(),
    {
        let ghost old_paths = self.paths@;
        self.levels.push(level);
        self.paths.push(path);
        proof {
            assert(texts(self.paths@) =~= texts(old_paths).push(path@));
        }
        self.levels.len() - 1
    }
}

/// The id of a new level made from a template with id `base` at time
/// `stamp`: `<base>_<stamp>`.
pub fn new_level_id(base: &str, stamp: &str) -> (id: String)
    ensures
        id@ == base@ + "_"@ + stamp@,
{
    proof {
        reveal_strlit("_");
    }
    let mut id = String::from_str(base);
    id.append("_");
    id.append(stamp);
    id
}

/// What a read gives back of a write: after `store(level, index)` on a
/// well-formed registry, the level at `index` is `level`, every other level
/// and every file is as it was, and each level still has its file.
pub proof fn lemma_store_then_get<T>(registry: Levels<T>, level: T, index: int)
    requires
        registry.wf(),
        0 <= index < registry.levels().len(),
    ensures
        ({
            let stored = registry.levels().update(index, level);
            &&& stored[index] == level
            &&& stored.len() == registry.paths().len()
            &&& forall|k: int|
                0 <= k < stored.len() && k != index ==> stored[k] == registry.levels()[k]
        }),
{
}

/// A level registered in a well-formed registry is found at the index that
/// `register` gives, with its file at the same index, and every level still
/// has its file.
pub proof fn lemma_register_then_get<T>(registry: Levels<T>, level: T, path: Seq<char>)
    requires
        registry.wf(),
    ensures
        ({
            let index = registry.levels().len() as int;
            let levels = registry.levels().push(level);
            let paths = registry.paths().push(path);
            &&& levels[index] == level
            &&& paths[index] == path
            &&& levels.len() == paths.len()
            &&& forall|k: int| 0 <= k < index ==> levels[k] == registry.levels()[k]
                && paths[k] == registry.paths()[k]
        }),
{
}

/// Forgetting a level of a well-formed registry keeps every other level
/// with its own file: the pairs after it move down together.
pub proof fn lemma_forget_keeps_pairs<T>(registry: Levels<T>, index: int)
    requires
        registry.wf(),
        0 <= index < registry.levels().len(),
    ensures
        ({
            let levels = registry.levels().remove(index);
            let paths = registry.paths().remove(index);
            &&& levels.len() == paths.len()
            &&& forall|k: int|
                #![trigger levels[k]]
                0 <= k < levels.len() ==> {
                    let from = if k < index {
                        k
                    } else {
                        k + 1
                    };
                    levels[k] == registry.levels()[from] && paths[k] == registry.paths()[from]
                }
        }),
{
}

/// The message when saving with no level loaded.
pub const NO_LEVEL_LOADED: &'static str = "no level is loaded";

/// The message when the loaded level is no longer among the levels.
pub const NO_CURRENT_LEVEL: &'static str = "no current level";

/// Saves the edits of the current level into `levels`: the level at the
/// current index is replaced by a copy of itself as edited in place, and the
/// file to write it to is returned. Fails when no level is loaded, or when
/// the current index is no longer among the levels.
pub fn save_current<T: Clone>(current: &CurrentLevel<T>, levels: &mut Levels<T>) -> (r: Result<
    String,
    String,
>)
    requires
        old(levels).wf(),
    ensures
        final(levels).wf(),
        final(levels).paths() == old(levels).paths(),
        final(levels).dir() == old(levels).dir(),
        match current.index {
            None => {
                &&& r matches Err(e) && e@ == NO_LEVEL_LOADED@
                &&& final(levels).levels() == old(levels).levels()
            },
            Some(i) => if i >= old(levels).levels().len() {
                &&& r matches Err(e) && e@ == NO_CURRENT_LEVEL@
                &&& final(levels).levels() == old(levels).levels()
            } else {
                &&& r matches Ok(path) && path@ == old(levels).paths()[i as int]
                &&& final(levels).levels().len() == old(levels).levels().len()
                &&& cloned(old(levels).levels()[i as int], final(levels).levels()[i as int])
                &&& forall|k: int|
                    0 <= k < old(levels).levels().len() && k != i ==> final(levels).levels()[k]
                        == old(levels).levels()[k]
            },
        },
{
    let index = match current.index {
        Some(index) => index,
        None => {
            return Err(String::from_str(NO_LEVEL_LOADED));
        },
    };
    let level = match current.get_from(levels) {
        Some(level) => level.clone(),
        None => {
            return Err(String::from_str(NO_CURRENT_LEVEL));
        },
    };
    Ok(levels.store(level, index))
}

/// The level being played or edited: its index among the levels and, while
/// loaded, a copy of it.
pub struct CurrentLevel<T> {
    pub index: Option<usize>,
    pub level: Option<T>,
}

impl<T> CurrentLevel<T> {
    /// No level is loaded.
    pub fn new() -> (current: CurrentLevel<T>)
        ensures
            current.index == None::<usize>,
            current.level is None,
    {
        CurrentLevel { index: None, level: None }
    }

    /// The current level among `levels`, if one is current and still there.
    pub fn get_from<'a>(&self, levels: &'a Levels<T>) -> (level: Option<&'a T>)
        ensures
            level == match self.index {
                Some(i) => if i < levels.levels().len() {
                    Some(&levels.levels()[i as int])
                } else {
                    None
                },
                None => None,
            },
    {
        match self.index {
            Some(i) => levels.get(i),
            None => None,
        }
    }

    /// Notes that the level at `index` was loaded, as `level`.
    pub fn set_loaded(&mut self, index: usize, level: T)
        ensures
            final(self).index == Some(index),
            final(self).level == Some(level),
    {
        self.index = Some(index);
        self.level = Some(level);
    }

    /// Forgets the current level, on leaving the game.
    pub fn clear(&mut self)
        ensures
            final(self).index == None::<usize>,
            final(self).level is None,
    {
        self.index = None;
        self.level = None;
    }
}


impl<T> Default for Levels<T> {
    /// No levels, and no directory.
    fn default() -> (registry: Levels<T>)
        ensures
            registry.wf(),
            registry.levels() == Seq::<T>::empty(),
            registry.paths() == Seq::<Seq<char>>::empty(),
            registry.dir() == Seq::<char>::empty(),
    {
        Levels::new()
    }
}

impl<T> Default for CurrentLevel<T> {
    /// No level is loaded.
    fn default() -> (current: CurrentLevel<T>)
        ensures
            current.index == None::<usize>,
            current.level is None,
    {
        CurrentLevel::new()
    }
}

} // verus!
