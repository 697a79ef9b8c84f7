//! The credentials used to reach the Kindle website.

use vstd::prelude::*;

verus! {

/// Credentials for the library source.
pub struct Config {
    pub email: String,
    pub password: String,
}

} // verus!
