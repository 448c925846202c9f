//! The registry's addresses and the request that publishes a package.

use vstd::prelude::*;
use vstd::string::*;
use crate::manifest::{copy_opt, text_opt};
use crate::package::Package;
use crate::text::{join2, owned};

verus! {

/// The text that the standard base64 alphabet with padding writes for
/// `bytes`: what `base64::engine::general_purpose::STANDARD` encodes them
/// to.
pub uninterp spec fn base64_text(bytes: Seq<u8>) -> Seq<char>;

/// Wraps `Engine::encode` of `base64::engine::general_purpose::STANDARD`,
/// which encodes the bytes in the standard alphabet with padding. The
/// result depends on the bytes alone and is given the name
/// [`base64_text`].
#[verifier::external_body]
pub(crate) fn base64_encode(bytes: &Vec<u8>) -> (r: String)
    ensures
        r@ == base64_text(bytes@),
{
    base64::Engine::encode(&base64::engine::general_purpose::STANDARD, bytes)
}

/// The registry that is asked where none is named.
pub fn default_registry_url() -> (r: &'static str)
    ensures
        r@ == "https://registry.silverbitcoin.org"@,
{
    "https://registry.silverbitcoin.org"
}

/// The registry to ask: the one that is named, else the default one.
pub fn registry_url(url: Option<&str>) -> (r: String)
    ensures
        r@ == match url {
            Some(u) => u@,
            None => "https://registry.silverbitcoin.org"@,
        },
{
    match url {
        Some(u) => owned(u),
        None => owned(default_registry_url()),
    }
}

/// The address at which the registry at `base` takes a published package.
pub fn publish_url(base: &str) -> (r: String)
    ensures
        r@ == base@ + "/api/v1/packages/publish"@,
{
    join2(base, "/api/v1/packages/publish")
}

/// The address from which the registry at `base` sends the archive of a
/// package version.
pub fn download_url(base: &str, name: &str, version: &str) -> (r: String)
    ensures
        r@ == base@ + "/api/v1/packages/"@ + name@ + "/"@ + version@ + "/download"@,
{
    let mut r = join2(base, "/api/v1/packages/");
    r.append(name);
    r.append("/");
    r.append(version);
    r.append("/download");
    r
}

/// The address at which the registry at `base` answers a search.
pub fn search_url(base: &str, query: &str) -> (r: String)
    ensures
        r@ == base@ + "/api/v1/packages/search?q="@ + query@,
{
    let mut r = join2(base, "/api/v1/packages/search?q=");
    r.append(query);
    r
}

/// What the registry tells of a package.
#[derive(Debug)]
pub struct PackageInfo {
    /// The package name
    pub name: String,
    /// The package version
    pub version: String,
    /// Optional package description
    pub description: Option<String>,
    /// Number of downloads
    pub downloads: u64,
}

/// What a publish request holds, as plain text.
pub struct PublishRequestView {
    pub name: Seq<char>,
    pub version: Seq<char>,
    pub description: Option<Seq<char>>,
    pub license: Option<Seq<char>>,
    pub repository: Option<Seq<char>>,
    pub archive_data: Seq<char>,
}

/// The request that publishes a package.
#[derive(Debug)]
pub struct PublishRequest {
    pub name: String,
    pub version: String,
    pub description: Option<String>,
    pub license: Option<String>,
    pub repository: Option<String>,
    pub archive_data: String,
}

impl View for PublishRequest {
    type V = PublishRequestView;

    open spec fn view(&self) -> PublishRequestView {
        PublishRequestView {
            name: self.name@,
            version: self.version@,
            description: text_opt(self.description),
            license: text_opt(self.license),
            repository: text_opt(self.repository),
            archive_data: self.archive_data@,
        }
    }
}

/// The request that publishes `package` with its `archive`: what the
/// manifest tells of the package, and the archive in base64.
pub fn publish_request(package: &Package, archive: &Vec<u8>) -> (r: PublishRequest)
    ensures
        r@ == (PublishRequestView {
            name: package.manifest@.package.name,
            version: package.manifest@.package.version,
            description: package.manifest@.package.description,
            license: package.manifest@.package.license,
            repository: package.manifest@.package.repository,
            archive_data: base64_text(archive@),
        }),
{
    PublishRequest {
        name: package.manifest.package.name.clone(),
        version: package.manifest.package.version.clone(),
        description: copy_opt(&package.manifest.package.description),
        license: copy_opt(&package.manifest.package.license),
        repository: copy_opt(&package.manifest.package.repository),
        archive_data: base64_encode(archive),
    }
}

} // verus!
