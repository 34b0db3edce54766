//! Package coordinates, the record lines they are read from, and the places
//! their archives come from and go to.

use crate::fetching::constants::DEFAULT_CRATES_PATH;
use crate::fetching::nesting::{exceeds_nesting, nesting_bound, MAX_NESTING};
use sonic_rs::JsonValueTrait;
use vstd::prelude::*;

verus! {

/// A package coordinate as a mathematical value: a name and a version, both
/// non-empty wherever a [`KratePath`] or a [`Krate`] holds them.
pub struct Coordinate {
    pub name: Seq<char>,
    pub version: Seq<char>,
}

/// The name of the archive file of a coordinate: `<name>-<version>.crate`.
pub open spec fn archive_file_name(c: Coordinate) -> Seq<char> {
    c.name + "-"@ + c.version + ".crate"@
}

/// The place of the archive of a coordinate below the default archive root:
/// `./crates/<name>-<version>.crate`.
pub open spec fn archive_path(c: Coordinate) -> Seq<char> {
    "./crates/"@ + archive_file_name(c)
}

/// The place of the archive of a coordinate below `root`:
/// `<root>/<name>-<version>.crate`.
pub open spec fn archive_path_in(root: Seq<char>, c: Coordinate) -> Seq<char> {
    root + "/"@ + archive_file_name(c)
}

/// The address an archive is fetched from:
/// `https://static.crates.io/crates/<name>/<name>-<version>.crate`.
pub open spec fn archive_url(c: Coordinate) -> Seq<char> {
    "https://static.crates.io/crates/"@ + c.name + "/"@ + archive_file_name(c)
}

/// The default place of an archive is its place below the default archive
/// root, taken from where the mirror runs.
pub proof fn lemma_default_archive_root(c: Coordinate)
    ensures
        archive_path(c) == archive_path_in("./"@ + DEFAULT_CRATES_PATH@, c),
{
    reveal_strlit("./crates/");
    reveal_strlit("./");
    reveal_strlit("crates");
    reveal_strlit("/");
    assert("./crates/"@ =~= "./"@ + "crates"@ + "/"@);
}

/// The coordinate of one published version, and with it the local place of
/// its archive.
#[derive(Debug)]
pub struct KratePath {
    name: String,
    version: String,
}

impl View for KratePath {
    type V = Coordinate;

    closed spec fn view(&self) -> Coordinate {
        Coordinate { name: self.name@, version: self.version@ }
    }
}

impl DeepView for KratePath {
    type V = Coordinate;

    open spec fn deep_view(&self) -> Coordinate {
        self@
    }
}

impl KratePath {
    #[verifier::type_invariant]
    spec fn well_formed(self) -> bool {
        self.name@.len() > 0 && self.version@.len() > 0
    }

    /// The coordinate `name`, `version`; none where either is empty.
    pub fn new(name: String, version: String) -> (path: Option<KratePath>)
        ensures
            match path {
                Some(p) => p@ == (Coordinate { name: name@, version: version@ }),
                None => name@.len() == 0 || version@.len() == 0,
            },
            path is Some <==> name@.len() > 0 && version@.len() > 0,
    {
        if name.as_str().is_empty() || version.as_str().is_empty() {
            None
        } else {
            Some(KratePath { name, version })
        }
    }

    /// The package's name, which is never empty.
    pub fn name(&self) -> (name: &str)
        ensures
            name@ == self@.name,
            name@.len() > 0,
    {
        proof {
            use_type_invariant(self);
        }
        self.name.as_str()
    }

    /// The version, which is never empty.
    pub fn version(&self) -> (version: &str)
        ensures
            version@ == self@.version,
            version@.len() > 0,
    {
        proof {
            use_type_invariant(self);
        }
        self.version.as_str()
    }

    /// The name of the archive file: `<name>-<version>.crate`.
    pub fn file_name(&self) -> (file: String)
        ensures
            file@ == archive_file_name(self@),
    {
        let mut file = self.name.clone();
        file.append("-");
        file.append(self.version.as_str());
        file.append(".crate");
        file
    }

    /// The place of the archive below the default archive root.
    pub fn to_string(&self) -> (path: String)
        ensures
            path@ == archive_path(self@),
    {
        let mut path = String::from_str("./crates/");
        path.append(self.file_name().as_str());
        path
    }

    /// The place of the archive below `root`.
    pub fn within(&self, root: &str) -> (path: String)
        ensures
            path@ == archive_path_in(root@, self@),
    {
        let mut path = String::from_str(root);
        path.append("/");
        path.append(self.file_name().as_str());
        path
    }
}

/// A published version of a package: its coordinate and the address its
/// archive is fetched from.
#[derive(Debug)]
pub struct Krate {
    path: KratePath,
    url: String,
}

impl View for Krate {
    type V = Coordinate;

    closed spec fn view(&self) -> Coordinate {
        self.path@
    }
}

impl DeepView for Krate {
    type V = Coordinate;

    open spec fn deep_view(&self) -> Coordinate {
        self@
    }
}

/// What a projection of the JSON text `json` on the two top level keys
/// `first` and `second` yields. None where the projection fails as a whole,
/// which it does for one on a text that is no JSON object. Otherwise, for
/// each key in turn, the string found for it, with its escapes resolved;
/// none where what was found is no string.
pub uninterp spec fn json_string_fields(
    json: Seq<char>,
    first: Seq<char>,
    second: Seq<char>,
) -> Option<(Option<Seq<char>>, Option<Seq<char>>)>;

/// Calls `sonic_rs::get_many` on `json` with the tree of the two one-key
/// paths `first` and `second`, and reads each value it returns with
/// `as_str`. Nothing is proved of this: the contract gives the outcome a
/// name, [`json_string_fields`], and so claims only that it is settled by
/// the three texts.
///
/// The call follows nested arrays and objects down by recursion, one call
/// deeper for each that it is inside of, and has no limit of its own; so
/// the text is required to be nested no deeper than [`MAX_NESTING`], by a
/// bound that the call cannot exceed:
///
/// - up to the first `\u` escape the call tells strings from the rest as
///   [`nesting_bound`] does, a string ending at the first quote that no
///   backslash takes for itself; behind that escape the bound counts every
///   opener and no closer;
/// - between the `{` that the text starts with and the first quote or `}`
///   behind it the call looks at nothing, and there the bound counts the
///   openers and lets no closer take the level of that `{`.
#[verifier::external_body]
fn string_fields(json: &str, first: &str, second: &str) -> (fields: Option<
    (Option<String>, Option<String>),
>)
    requires
        nesting_bound(json@) <= MAX_NESTING,
    ensures
        fields.deep_view() == json_string_fields(json@, first@, second@),
{
    let mut tree = sonic_rs::PointerTree::new();
    tree.add_path(&[first]);
    tree.add_path(&[second]);
    match sonic_rs::get_many(json, &tree) {
        Ok(values) => Some(
            (values[0].as_str().map(String::from), values[1].as_str().map(String::from)),
        ),
        Err(_) => None,
    }
}

/// The coordinate that the two extracted fields make: both must be there,
/// both strings, and neither empty.
pub open spec fn coordinate_of(
    fields: Option<(Option<Seq<char>>, Option<Seq<char>>)>,
) -> Option<Coordinate> {
    match fields {
        Some((Some(name), Some(version))) => if name.len() > 0 && version.len() > 0 {
            Some(Coordinate { name, version })
        } else {
            None
        },
        _ => None,
    }
}

/// The coordinate that one record line of an index file describes: none
/// for a line that is nested deeper than [`MAX_NESTING`], which is not read
/// at all; for any other line what its `name` and `vers` fields make, by
/// [`coordinate_of`].
pub open spec fn line_coordinate(line: Seq<char>) -> Option<Coordinate> {
    if nesting_bound(line) > MAX_NESTING {
        None
    } else {
        coordinate_of(json_string_fields(line, "name"@, "vers"@))
    }
}

impl Krate {
    #[verifier::type_invariant]
    spec fn well_formed(self) -> bool {
        self.url@ == archive_url(self.path@)
    }

    /// The published version `name`, `version`; none where either is empty.
    pub fn new(name: String, version: String) -> (krate: Option<Krate>)
        ensures
            match krate {
                Some(k) => k@ == (Coordinate { name: name@, version: version@ }),
                None => name@.len() == 0 || version@.len() == 0,
            },
            krate is Some <==> name@.len() > 0 && version@.len() > 0,
    {
        match KratePath::new(name, version) {
            Some(path) => {
                let mut url = String::from_str("https://static.crates.io/crates/");
                url.append(path.name());
                url.append("/");
                url.append(path.file_name().as_str());
                Some(Krate { path, url })
            },
            None => None,
        }
    }

    /// The published version that two extracted fields describe, if they
    /// describe one.
    pub fn from_fields(fields: Option<(Option<String>, Option<String>)>) -> (krate: Option<Krate>)
        ensures
            krate.deep_view() == coordinate_of(fields.deep_view()),
    {
        match fields {
            Some((Some(name), Some(version))) => Krate::new(name, version),
            _ => None,
        }
    }

    /// The published version that a record line describes. A line that is
    /// malformed, lacks a field, or is nested too deep describes none. The
    /// nesting is measured first, and only a line within the limit is read.
    pub fn from_line(line: &str) -> (krate: Option<Krate>)
        ensures
            krate.deep_view() == line_coordinate(line@),
    {
        if exceeds_nesting(line, MAX_NESTING) {
            None
        } else {
            Krate::from_fields(string_fields(line, "name", "vers"))
        }
    }

    /// The coordinate, and with it the local place of the archive.
    pub fn path(&self) -> (path: &KratePath)
        ensures
            path@ == self@,
    {
        &self.path
    }

    /// The address the archive is fetched from.
    pub fn url(&self) -> (url: &str)
        ensures
            url@ == archive_url(self@),
    {
        proof {
            use_type_invariant(self);
        }
        self.url.as_str()
    }
}

} // verus!
