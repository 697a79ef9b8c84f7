//! The program's configuration and the path expansion applied to the
//! configuration file location.

use vstd::prelude::*;

use crate::kindle::config::Config as KindleConfig;
use crate::strutil::has_prefix;

verus! {

/// The top-level configuration: each section is present only when the
/// corresponding command is configured.
pub struct Config {
    pub kindle: Option<KindleConfig>,
}

/// What expanding a leading tilde yields: "~" alone becomes the home
/// directory, "~/rest" becomes home joined with "rest", and any other
/// path is left untouched.
pub open spec fn expanded_home(path: Seq<char>, home: Seq<char>) -> Seq<char> {
    if path == seq!['~'] {
        home
    } else if has_prefix(path, seq!['~', '/']) {
        home + path.subrange(1, path.len() as int)
    } else {
        path
    }
}

/// Expands a leading tilde component of `path` to `home`.
pub fn expand_home(path: &str, home: &str) -> (r: String)
    ensures
        r@ == expanded_home(path@, home@),
{
    let n = path.unicode_len();
    if n == 0 {
        proof {
            assert(path@ != seq!['~']);
            assert(!has_prefix(path@, seq!['~', '/']));
        }
        return path.to_owned();
    }
    let c0 = path.get_char(0);
    if c0 != '~' {
        proof {
            assert(seq!['~'][0] == '~');
            assert(path@ != seq!['~']);
            assert(has_prefix(path@, seq!['~', '/']) ==> path@.subrange(0, 2)[0] == '~');
            assert(!has_prefix(path@, seq!['~', '/']));
        }
        return path.to_owned();
    }
    if n == 1 {
        proof {
            assert(path@ =~= seq!['~']);
        }
        return home.to_owned();
    }
    let c1 = path.get_char(1);
    if c1 == '/' {
        proof {
            assert(path@.subrange(0, 2) =~= seq!['~', '/']);
            assert(path@ != seq!['~']);
        }
        let mut r = home.to_owned();
        r.append(path.substring_char(1, n));
        return r;
    }
    proof {
        assert(path@ != seq!['~']);
        assert(has_prefix(path@, seq!['~', '/']) ==> path@.subrange(0, 2)[1] == '/');
        assert(!has_prefix(path@, seq!['~', '/']));
    }
    path.to_owned()
}

} // verus!
