//! CVE data records.
//!
//! Plain records of the NIST NVD CVE data format, as far as this library
//! reads it: identifiers, descriptions, references, and the configuration
//! tree naming affected products. Impact metrics carry floating-point
//! scores and live outside this library.

use vstd::prelude::*;

verus! {

/// CVE metadata containing the unique identifier.
#[derive(Debug)]
pub struct CveDataMeta {
    pub id: String,
}

/// Individual description text with language tag.
#[derive(Debug)]
pub struct DescriptionData {
    pub lang: String,
    pub value: String,
}

/// Description of the vulnerability.
#[derive(Debug)]
pub struct Description {
    pub data: Vec<DescriptionData>,
}

/// Individual reference with URL and metadata.
#[derive(Debug)]
pub struct ReferenceData {
    pub url: String,
    pub name: Option<String>,
    pub ref_source: Option<String>,
}

/// References to external sources about the vulnerability.
#[derive(Debug)]
pub struct References {
    pub data: Vec<ReferenceData>,
}

/// Core CVE data including identifier, description and references.
#[derive(Debug)]
pub struct Cve {
    pub data_meta: CveDataMeta,
    pub description: Description,
    pub references: References,
}

/// CPE match rules describing affected versions.
#[derive(Debug)]
pub struct CpeMatch {
    pub vulnerable: bool,
    pub cpe23_uri: String,
    pub version_start_including: Option<String>,
    pub version_end_including: Option<String>,
    pub version_start_excluding: Option<String>,
    pub version_end_excluding: Option<String>,
}

/// Node in the configuration tree.
#[derive(Debug)]
pub struct Node {
    pub operator: String,
    pub children: Option<Vec<Node>>,
    pub cpe_match: Option<Vec<CpeMatch>>,
}

/// Configuration information describing affected products.
#[derive(Debug)]
pub struct Configurations {
    pub data_version: String,
    pub nodes: Vec<Node>,
}

} // verus!
