use vstd::prelude::*;
use vstd::string::StrSliceExecFns;
use vstd::string::StringExecFns;

verus! {

/// What `Path::file_name` gives for a path: its final component when that
/// component is a normal one.
pub uninterp spec fn file_name_of(path: Seq<char>) -> Option<Seq<char>>;

/// Relies on `std::path::Path::file_name`: the final component of the path,
/// if there is one. The input is UTF-8, so its components are too.
#[verifier::external_body]
fn file_name(path: &str) -> (r: Option<String>)
    ensures
        match r {
            Some(n) => file_name_of(path@) == Some(n@),
            None => file_name_of(path@) is None,
        },
{
    match std::path::Path::new(path).file_name() {
        Some(n) => Some(n.to_string_lossy().into_owned()),
        None => None,
    }
}

/// Why no share name could be had.
#[derive(Clone, Copy, Debug, PartialEq, Eq, Structural)]
pub enum ShareNameError {
    /// The explicit name is empty.
    Empty,
    /// The explicit name holds a NUL character.
    ContainsNul,
    /// The explicit name holds a `/`.
    ContainsSeparator,
    /// No name was given and the path has no final component.
    NoFileName,
}

/// The name of a share: the explicit one if it is valid, else the final
/// component of its path.
pub open spec fn spec_share_name(name: Option<Seq<char>>, path: Seq<char>) -> Result<
    Seq<char>,
    ShareNameError,
> {
    match name {
        Some(n) => if n.len() == 0 {
            Err(ShareNameError::Empty)
        } else if n.contains('\0') {
            Err(ShareNameError::ContainsNul)
        } else if n.contains('/') {
            Err(ShareNameError::ContainsSeparator)
        } else {
            Ok(n)
        },
        None => match file_name_of(path) {
            Some(f) => Ok(f),
            None => Err(ShareNameError::NoFileName),
        },
    }
}

pub open spec fn opt_view(s: Option<&str>) -> Option<Seq<char>> {
    match s {
        Some(s) => Some(s@),
        None => None,
    }
}

/// Whether `c` occurs in `s`.
pub fn contains_char(s: &str, c: char) -> (r: bool)
    ensures
        r == s@.contains(c),
{
    let n = s.unicode_len();
    let mut i: usize = 0;
    while i < n
        invariant
            n == s@.len(),
            i <= n,
            forall|j: int| 0 <= j < i ==> s@[j] != c,
        decreases n - i,
    {
        if s.get_char(i) == c {
            return true;
        }
        i += 1;
    }
    false
}

/// Derives the name of a new share from the explicit name, if any, or the
/// path.
pub fn share_name(name: Option<&str>, path: &str) -> (r: Result<String, ShareNameError>)
    ensures
        match r {
            Ok(n) => spec_share_name(opt_view(name), path@) == Ok::<Seq<char>, ShareNameError>(n@),
            Err(e) => spec_share_name(opt_view(name), path@) == Err::<Seq<char>, ShareNameError>(e),
        },
{
    match name {
        Some(n) => {
            if n.unicode_len() == 0 {
                Err(ShareNameError::Empty)
            } else if contains_char(n, '\0') {
                Err(ShareNameError::ContainsNul)
            } else if contains_char(n, '/') {
                Err(ShareNameError::ContainsSeparator)
            } else {
                Ok(String::from_str(n))
            }
        },
        None => match file_name(path) {
            Some(f) => Ok(f),
            None => Err(ShareNameError::NoFileName),
        },
    }
}

pub open spec fn spec_message(e: ShareNameError, path: Seq<char>) -> Seq<char> {
    match e {
        ShareNameError::Empty => "share name is empty"@,
        ShareNameError::ContainsNul => "share name contains a NUL character"@,
        ShareNameError::ContainsSeparator => "share name contains a `/` separator"@,
        ShareNameError::NoFileName => "failed to derive share name for path `"@ + path + "`"@,
    }
}

impl ShareNameError {
    /// A one-line description of the error for the share at `path`.
    pub fn message(&self, path: &str) -> (r: String)
        ensures
            r@ == spec_message(*self, path@),
    {
        match self {
            ShareNameError::Empty => String::from_str("share name is empty"),
            ShareNameError::ContainsNul => String::from_str("share name contains a NUL character"),
            ShareNameError::ContainsSeparator => String::from_str(
                "share name contains a `/` separator",
            ),
            ShareNameError::NoFileName => {
                let s = String::from_str("failed to derive share name for path `");
                let s = s.concat(path);
                s.concat("`")
            },
        }
    }
}

} // verus!
