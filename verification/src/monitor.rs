//! Where each agent of the pool can be watched in a browser.
use crate::text::{append_str, concat, decimal, decimal_chars, string_of};
use vstd::prelude::*;

verus! {

/// The address of a web view: `http://<host>:<port>`.
pub open spec fn spec_web_ui_url(host: Seq<char>, port: nat) -> Seq<char> {
    "http://"@ + host + ":"@ + decimal(port)
}

/// The address of a web view.
pub fn web_ui_url(host: &str, port: u16) -> (url: String)
    ensures
        url@ == spec_web_ui_url(host@, port as nat),
{
    let d = decimal_chars(port as usize);
    let mut url = concat("http://", host);
    append_str(&mut url, ":");
    append_str(&mut url, string_of(d.as_slice()).as_str());
    url
}

/// The web view of each agent of a pool, in order: agent `i` listens on the
/// base port plus `i`.
pub fn web_ui_urls(host: &str, base_port: u16, pool_size: usize) -> (urls: Vec<String>)
    requires
        base_port + pool_size <= u16::MAX + 1,
    ensures
        urls@.len() == pool_size,
        forall|i: int|
            0 <= i < pool_size ==> (#[trigger] urls@[i])@ == spec_web_ui_url(host@, (base_port + i) as nat),
{
    let mut urls: Vec<String> = Vec::new();
    let mut i: usize = 0;
    while i < pool_size
        invariant
            i <= pool_size,
            base_port + pool_size <= u16::MAX + 1,
            urls@.len() == i,
            forall|j: int|
                0 <= j < i ==> (#[trigger] urls@[j])@ == spec_web_ui_url(host@, (base_port + j) as nat),
        decreases pool_size - i,
    {
        let port = base_port + i as u16;
        urls.push(web_ui_url(host, port));
        i = i + 1;
    }
    urls
}

} // verus!
