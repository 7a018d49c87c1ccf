use vstd::prelude::*;
use vstd::string::*;

verus! {

/// The OSV.dev query address.
pub const OSV_QUERY_URL: &'static str = "https://api.osv.dev/v1/query";

/// An OSV.dev query for the advisories of one package version.
pub struct OsvQuery {
    pub version: String,
    pub package: OsvPackage,
}

pub struct OsvPackage {
    pub name: String,
    pub ecosystem: String,
}

/// The advisories that OSV.dev reports for a package version.
pub struct OsvResponse {
    pub vulns: Option<Vec<OsvVulnerability>>,
}

pub struct OsvVulnerability {
    pub id: String,
}

/// The identifiers of the advisories in an answer (none when it lists none).
pub open spec fn advisory_ids(response: &OsvResponse) -> Seq<Seq<char>> {
    match response.vulns {
        Some(v) => v@.map_values(|x: OsvVulnerability| x.id@),
        None => Seq::empty(),
    }
}

/// The query for the advisories of version `version` of the crates.io crate `name`.
pub fn vulnerability_query(name: &str, version: &str) -> (query: OsvQuery)
    ensures
        query.version@ == version@,
        query.package.name@ == name@,
        query.package.ecosystem@ == "crates.io"@,
{
    OsvQuery {
        version: String::from_str(version),
        package: OsvPackage { name: String::from_str(name), ecosystem: String::from_str("crates.io") },
    }
}

} // verus!
