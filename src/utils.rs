use crate::resolve::{join_path, join_components, strings_view};
use vstd::prelude::*;
use vstd::string::StringExecFns;

verus! {

/// The port of the public endpoint when a URL names none.
pub const WILY_PORT: u16 = 9999;

/// The parts of a public endpoint's URL that the client reads.
#[derive(Clone, Debug, PartialEq, Eq)]
pub struct WilyUrl {
    pub scheme: String,
    pub host: Option<String>,
    pub port: Option<u16>,
    pub path: String,
}

/// Why a URL does not name a public endpoint.
#[derive(Clone, Debug, PartialEq, Eq)]
pub enum UrlError {
    /// The scheme is not `wily`; holds the scheme.
    InvalidScheme(String),
    /// The URL names no host.
    NoHost,
}

pub open spec fn wily_scheme() -> Seq<char> {
    seq!['w', 'i', 'l', 'y']
}

/// The host and port that `verify_url` finds in `url`.
pub open spec fn spec_verify_url(url: WilyUrl) -> Result<(Seq<char>, u16), UrlError> {
    if url.scheme@ != wily_scheme() {
        Err(UrlError::InvalidScheme(url.scheme))
    } else {
        match url.host {
            None => Err(UrlError::NoHost),
            Some(h) => Ok(
                (
                    h@,
                    match url.port {
                        Some(p) => p,
                        None => WILY_PORT,
                    },
                ),
            ),
        }
    }
}

/// The host and port of a `wily://host[:port]/path` URL.
pub fn verify_url(url: &WilyUrl) -> (r: Result<(String, u16), UrlError>)
    ensures
        match r {
            Ok((h, p)) => spec_verify_url(*url) == Ok::<(Seq<char>, u16), UrlError>((h@, p)),
            Err(e) => spec_verify_url(*url) == Err::<(Seq<char>, u16), UrlError>(e),
        },
{
    proof {
        reveal_strlit("wily");
    }
    let wily = String::from_str("wily");
    assert(wily@ =~= wily_scheme());
    if !crate::registry::str_eq(url.scheme.as_str(), wily.as_str()) {
        return Err(UrlError::InvalidScheme(url.scheme.clone()));
    }
    match &url.host {
        None => Err(UrlError::NoHost),
        Some(h) => {
            let port = match url.port {
                Some(p) => p,
                None => WILY_PORT,
            };
            Ok((h.clone(), port))
        },
    }
}

pub open spec fn socket_file_name() -> Seq<char> {
    seq!['w', 'i', 'l', 'y', '.', 's', 'o', 'c', 'k']
}

/// Where the daemon's socket lives: in the runtime directory if there is
/// one, else in the local data directory.
pub open spec fn spec_daemon_socket(
    runtime_dir: Option<Seq<char>>,
    data_local_dir: Option<Seq<char>>,
) -> Option<Seq<char>> {
    match runtime_dir {
        Some(d) => Some(join_path(d, seq![socket_file_name()])),
        None => match data_local_dir {
            Some(d) => Some(join_path(d, seq![socket_file_name()])),
            None => None,
        },
    }
}

/// The path of the daemon's socket, given the directories the platform
/// offers.
pub fn daemon_socket(runtime_dir: Option<String>, data_local_dir: Option<String>) -> (r: Option<
    String,
>)
    ensures
        match r {
            Some(s) => spec_daemon_socket(
                match runtime_dir {
                    Some(d) => Some(d@),
                    None => None,
                },
                match data_local_dir {
                    Some(d) => Some(d@),
                    None => None,
                },
            ) == Some(s@),
            None => runtime_dir is None && data_local_dir is None,
        },
{
    let dir = match runtime_dir {
        Some(d) => d,
        None => match data_local_dir {
            Some(d) => d,
            None => {
                return None;
            },
        },
    };
    proof {
        reveal_strlit("wily.sock");
    }
    let mut comps: Vec<String> = Vec::new();
    let file = String::from_str("wily.sock");
    assert(file@ =~= socket_file_name());
    comps.push(file);
    assert(strings_view(comps@) =~= seq![socket_file_name()]);
    Some(join_components(dir.as_str(), &comps))
}

} // verus!
