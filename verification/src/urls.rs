//! The textual paths of the wire interface: where a client fetches or posts
//! a share, where the relay keeps a blob, and which static page a web request
//! maps to.

use crate::share_id::ShareId;
use vstd::prelude::*;
use vstd::string::StringExecFns;

verus! {

/// The URL a client downloads a share from: `<base>/get/<id>`.
pub fn get_url(url: &String, id: &String) -> (r: String)
    ensures
        r@ == url@ + "/get/"@ + id@,
{
    let mut r = url.clone();
    r.append("/get/");
    r.append(id.as_str());
    r
}

/// The URL a client uploads a share to: `<base>/share`.
pub fn share_url(url: &String) -> (r: String)
    ensures
        r@ == url@ + "/share"@,
{
    let mut r = url.clone();
    r.append("/share");
    r
}

/// The path the relay keeps a blob under: `shares/<id>`.  Only a validated
/// identifier can reach this, so the path never escapes the directory.
pub fn get_share_path(id: &ShareId) -> (r: String)
    ensures
        r@ == "shares/"@ + id@,
{
    let mut r = String::from_str("shares/");
    r.append(id.as_str());
    r
}

/// The static asset a web request maps to: every page but the script is the
/// index page.
pub fn website_path(file: String) -> (r: String)
    ensures
        r@ == if file@ == "crypto.js"@ {
            file@
        } else {
            "index.html"@
        },
{
    let script = String::from_str("crypto.js");
    if file == script {
        file
    } else {
        String::from_str("index.html")
    }
}

} // verus!
