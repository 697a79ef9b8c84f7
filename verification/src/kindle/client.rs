//! What the library-source client is started with.  The client itself
//! drives a browser session and lives outside the library; the engine
//! only ever sees the records it hands back.

use vstd::prelude::*;

verus! {

/// How the library source is reached: whether the browser runs headless,
/// and the credentials to sign in with.
pub struct ClientOpts {
    pub headless: bool,
    pub email: String,
    pub password: String,
}

} // verus!
