use vstd::prelude::*;

use crate::error::Error;
use crate::key::Keys;
use crate::text::{chars_of, push_char, push_chars, string_of};

verus! {

/// `part` appended to the path `base` as a further component: an absolute
/// `part` replaces `base`, and a separator is put in where `base` lacks one.
pub open spec fn join(base: Seq<char>, part: Seq<char>) -> Seq<char> {
    if part.len() > 0 && part[0] == '/' {
        part
    } else if base.len() == 0 || base.last() == '/' {
        base + part
    } else {
        base + seq!['/'] + part
    }
}

/// Appends `part` to the path `base` as a further component.
pub fn join_path(base: &str, part: &str) -> (r: String)
    ensures
        r@ == join(base@, part@),
{
    let p = chars_of(part);
    if p.len() > 0 && p[0] == '/' {
        return string_of(&p, 0, p.len());
    }
    let b = chars_of(base);
    let mut s = string_of(&b, 0, b.len());
    assert(b@.subrange(0, b@.len() as int) =~= b@);
    if !(b.len() == 0 || b[b.len() - 1] == '/') {
        push_char(&mut s, '/');
    }
    push_chars(&mut s, part);
    s
}

/// Where dictionaries are installed when nothing else is given.
pub fn default_dict_dir() -> (r: &'static str)
    ensures
        r@ == "/Library/Application Support/AppStoreContent/jp.monokakido.Dictionaries/Products/"@,
{
    "/Library/Application Support/AppStoreContent/jp.monokakido.Dictionaries/Products/"
}

/// The position of the last `.` among `s[0..i]`, or -1 when there is none.
pub open spec fn last_dot(s: Seq<char>, i: int) -> int
    decreases i,
{
    if i <= 0 {
        -1
    } else if s[i - 1] == '.' {
        i - 1
    } else {
        last_dot(s, i - 1)
    }
}

/// A dictionary's name: its directory name up to the last `.`, if there is one.
pub open spec fn dict_name_of(dir: Seq<char>) -> Option<Seq<char>> {
    let k = last_dot(dir, dir.len() as int);
    if k < 0 {
        None
    } else {
        Some(dir.take(k))
    }
}

/// What `Path::file_name` gives for a path: its last component, if it names one.
pub uninterp spec fn path_file_name(p: Seq<char>) -> Option<Seq<char>>;

/// Relies on `std::path::Path::file_name` (with `OsStr::to_string_lossy` to
/// read the component back as text): the final component of a path, `None`
/// when the path ends in `..` or is a root or empty.
#[verifier::external_body]
fn file_name(path: &str) -> (r: Option<String>)
    ensures
        r is Some <==> path_file_name(path@) is Some,
        r matches Some(s) ==> s@ == path_file_name(path@)->Some_0,
{
    match std::path::Path::new(path).file_name() {
        Some(n) => Some(n.to_string_lossy().into_owned()),
        None => None,
    }
}

/// The part of `dir` before its last `.`.
pub fn dict_name(dir: &str) -> (r: Option<String>)
    ensures
        r matches Some(s) ==> dict_name_of(dir@) == Some(s@),
        r is None ==> dict_name_of(dir@) is None,
{
    let d = chars_of(dir);
    let mut i = d.len();
    while i > 0 && d[i - 1] != '.'
        invariant
            d@ == dir@,
            i <= d@.len(),
            last_dot(d@, d@.len() as int) == last_dot(d@, i as int),
        decreases i,
    {
        i = i - 1;
    }
    if i == 0 {
        None
    } else {
        Some(string_of(&d, 0, i - 1))
    }
}

/// Where a dictionary lives: its directory and its name.
#[derive(Debug)]
pub struct DictLocation {
    pub base_path: String,
    pub name: String,
}

impl DictLocation {
    /// The dictionary's description file: `Contents/<name>.json` in its directory.
    pub fn json_path(&self) -> (r: String)
        ensures
            r@ == join(join(self.base_path@, "Contents"@), self.name@ + ".json"@),
    {
        let contents = join_path(self.base_path.as_str(), "Contents");
        let mut file = self.name.clone();
        push_chars(&mut file, ".json");
        join_path(contents.as_str(), file.as_str())
    }
}

/// The directory that holds the dictionaries: `custom_dir` when given, else
/// `configured` (the directory a configuration names), else the default.
pub open spec fn list_path_spec(custom_dir: Option<Seq<char>>, configured: Option<Seq<char>>) -> Seq<
    char,
> {
    match custom_dir {
        Some(d) => d,
        None => match configured {
            Some(c) => c,
            None => "/Library/Application Support/AppStoreContent/jp.monokakido.Dictionaries/Products/"@,
        },
    }
}

/// The text of an optional string.
pub open spec fn opt_view(s: Option<&str>) -> Option<Seq<char>> {
    match s {
        Some(t) => Some(t@),
        None => None,
    }
}

/// The locations of a dictionary's files.
#[derive(Debug)]
pub struct Paths {
    base_path: String,
    name: String,
    contents_dir: String,
}

impl View for Paths {
    /// The dictionary's directory, its name and its content subdirectory.
    type V = (Seq<char>, Seq<char>, Seq<char>);

    closed spec fn view(&self) -> (Seq<char>, Seq<char>, Seq<char>) {
        (self.base_path@, self.name@, self.contents_dir@)
    }
}

impl Paths {
    /// The directory that holds the dictionaries.
    pub fn list_path(custom_dir: Option<&str>, configured: Option<&str>) -> (r: String)
        ensures
            r@ == list_path_spec(opt_view(custom_dir), opt_view(configured)),
    {
        let mut s = String::new();
        match custom_dir {
            Some(d) => push_chars(&mut s, d),
            None => match configured {
                Some(c) => push_chars(&mut s, c),
                None => push_chars(&mut s, default_dict_dir()),
            },
        }
        s
    }

    /// The directory of the dictionary `name` among the installed ones.
    pub fn std_dict_path(name: &str, custom_dir: Option<&str>, configured: Option<&str>) -> (r:
        String)
        ensures
            r@ == join(list_path_spec(opt_view(custom_dir), opt_view(configured)), name@),
    {
        let dir = Self::list_path(custom_dir, configured);
        join_path(dir.as_str(), name)
    }

    /// The dictionary's description file in directory `path`: `Contents/<name>.json`.
    pub fn json_path(path: &str, name: &str) -> (r: String)
        ensures
            r@ == join(join(path@, "Contents"@), name@ + ".json"@),
    {
        let contents = join_path(path, "Contents");
        let mut file = String::new();
        push_chars(&mut file, name);
        push_chars(&mut file, ".json");
        join_path(contents.as_str(), file.as_str())
    }

    /// The paths of a dictionary whose description lists `contents_dirs`; the
    /// last one listed is its content directory.
    pub fn from_contents(location: DictLocation, contents_dirs: Vec<String>) -> (r: Result<
        Paths,
        Error,
    >)
        ensures
            contents_dirs@.len() == 0 ==> r == Err::<Paths, Error>(Error::InvalidDictJson),
            contents_dirs@.len() > 0 ==> (r matches Ok(p) && p@ == (
                location.base_path@,
                location.name@,
                contents_dirs@.last()@,
            )),
    {
        let mut dirs = contents_dirs;
        match dirs.pop() {
            Some(contents_dir) => Ok(
                Paths { base_path: location.base_path, name: location.name, contents_dir },
            ),
            None => Err(Error::InvalidDictJson),
        }
    }

    /// The content directory: `Contents/<contents_dir>` in the dictionary's directory.
    pub fn contents_path(&self) -> (r: String)
        ensures
            r@ == join(join(self@.0, "Contents"@), self@.2),
    {
        let contents = join_path(self.base_path.as_str(), "Contents");
        join_path(contents.as_str(), self.contents_dir.as_str())
    }

    /// The key directory: `key` in the content directory.
    pub fn key_path(&self) -> (r: String)
        ensures
            r@ == join(join(join(self@.0, "Contents"@), self@.2), "key"@),
    {
        let contents = self.contents_path();
        join_path(contents.as_str(), "key")
    }

    /// The key file of headwords: `headword.keystore` in the key directory.
    pub fn key_headword_path(&self) -> (r: String)
        ensures
            r@ == join(
                join(join(join(self@.0, "Contents"@), self@.2), "key"@),
                "headword.keystore"@,
            ),
    {
        let key = self.key_path();
        join_path(key.as_str(), "headword.keystore")
    }

    /// The headline directory: `headline` in the content directory.
    pub fn headline_path(&self) -> (r: String)
        ensures
            r@ == join(join(join(self@.0, "Contents"@), self@.2), "headline"@),
    {
        let contents = self.contents_path();
        join_path(contents.as_str(), "headline")
    }

    /// The long headline store: `headline.headlinestore` in the headline directory.
    pub fn headline_long_path(&self) -> (r: String)
        ensures
            r@ == join(
                join(join(join(self@.0, "Contents"@), self@.2), "headline"@),
                "headline.headlinestore"@,
            ),
    {
        let headline = self.headline_path();
        join_path(headline.as_str(), "headline.headlinestore")
    }
}

/// An open dictionary: where its files are, and its keyword index.
#[derive(Debug)]
pub struct MonokakidoDict {
    paths: Paths,
    pub keys: Keys,
}

impl MonokakidoDict {
    /// The paths of the dictionary.
    pub closed spec fn paths_view(&self) -> (Seq<char>, Seq<char>, Seq<char>) {
        self.paths@
    }

    /// The word blob and index arrays of the dictionary's key file.
    pub closed spec fn key_parts(&self) -> crate::key::KeyParts {
        self.keys.parts()
    }

    /// Locates the dictionary `name` among the installed ones: in `custom_dir`
    /// when given, else in the `configured` directory, else in the default one.
    pub fn open_with_dir(name: &str, custom_dir: Option<&str>, configured: Option<&str>) -> (r:
        DictLocation)
        ensures
            r.base_path@ == join(list_path_spec(opt_view(custom_dir), opt_view(configured)), name@),
            r.name@ == name@,
    {
        let base_path = Paths::std_dict_path(name, custom_dir, configured);
        let mut n = String::new();
        push_chars(&mut n, name);
        DictLocation { base_path, name: n }
    }

    /// Locates the dictionary `name` in the `configured` directory, else in the default one.
    pub fn open(name: &str, configured: Option<&str>) -> (r: DictLocation)
        ensures
            r.base_path@ == join(list_path_spec(None, opt_view(configured)), name@),
            r.name@ == name@,
    {
        Self::open_with_dir(name, None, configured)
    }

    /// Locates the dictionary in directory `path`; its name is the directory's
    /// name up to the last `.`.
    pub fn open_with_path(path: &str) -> (r: Result<DictLocation, Error>)
        ensures
            match r {
                Ok(loc) => (path_file_name(path@) matches Some(d) && dict_name_of(d) == Some(
                    loc.name@,
                )) && loc.base_path@ == path@,
                Err(e) => e == Error::FopenError && (path_file_name(path@) is None
                    || dict_name_of(path_file_name(path@)->Some_0) is None),
            },
    {
        let dir_name = match file_name(path) {
            Some(d) => d,
            None => {
                return Err(Error::FopenError);
            },
        };
        let name = match dict_name(dir_name.as_str()) {
            Some(n) => n,
            None => {
                return Err(Error::FopenError);
            },
        };
        let mut base_path = String::new();
        push_chars(&mut base_path, path);
        Ok(DictLocation { base_path, name })
    }

    /// The dictionary at `paths`, whose headword key file holds `key_file`.
    pub fn from_key_file(paths: Paths, key_file: &[u8]) -> (r: Result<MonokakidoDict, Error>)
        ensures
            match r {
                Ok(d) => d.paths_view() == paths@ && crate::key::keys_spec(key_file@) == Ok::<
                    crate::key::KeyParts,
                    Error,
                >(d.key_parts()),
                Err(e) => crate::key::keys_spec(key_file@) == Err::<crate::key::KeyParts, Error>(
                    e,
                ),
            },
    {
        let keys = Keys::from_bytes(key_file)?;
        Ok(MonokakidoDict { paths, keys })
    }

    /// The dictionary's name.
    pub fn name(&self) -> (r: &str)
        ensures
            r@ == self.paths_view().1,
    {
        self.paths.name.as_str()
    }

    /// The locations of the dictionary's files.
    pub fn paths(&self) -> (r: &Paths)
        ensures
            r@ == self.paths_view(),
    {
        &self.paths
    }
}

} // verus!
