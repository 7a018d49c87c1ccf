use vstd::prelude::*;
use vstd::string::*;

verus! {

/// The part of a crates.io answer that the health check reads.
pub struct CratesIoResponse {
    pub crate_data: CrateData,
}

/// A crate's newest version and its repository URL, as crates.io lists them.
pub struct CrateData {
    pub max_version: String,
    pub repository: Option<String>,
}

/// The user agent that crates.io asks API clients to identify themselves with.
pub const CRATES_IO_USER_AGENT: &'static str = "cargo-doctor (github.com/manaslimem/cargo-doctor)";

pub open spec fn crate_info_url_of(name: Seq<char>) -> Seq<char> {
    "https://crates.io/api/v1/crates/"@ + name
}

/// The crates.io API address that describes the crate `name`.
pub fn crate_info_url(name: &str) -> (url: String)
    ensures
        url@ == crate_info_url_of(name@),
{
    let mut url = String::from_str("https://crates.io/api/v1/crates/");
    url.append(name);
    url
}

} // verus!
