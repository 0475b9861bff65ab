//! Where the repositories live and which port to serve on.
use vstd::prelude::*;

verus! {

/// The port served on when none is set.
pub const STD_PORT: u16 = 3000;

/// The directory that holds the repositories, and the port to serve on.
#[derive(Clone, Debug)]
pub struct Config {
    pub dir: String,
    pub port: u16,
}

impl Config {
    /// The settings given, with the current directory and `STD_PORT` for
    /// those that are not.
    pub fn with_defaults(dir: Option<String>, port: Option<u16>) -> (r: Config)
        ensures
            r.dir@ == match dir {
                Some(d) => d@,
                None => "./"@,
            },
            r.port == match port {
                Some(p) => p,
                None => STD_PORT,
            },
    {
        let dir = match dir {
            Some(d) => d,
            None => String::from_str("./"),
        };
        let port = match port {
            Some(p) => p,
            None => STD_PORT,
        };
        Config { dir, port }
    }
}

} // verus!
