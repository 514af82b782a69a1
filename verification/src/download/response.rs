//! What a release holds and what a download hands back.

use crate::download::{APPLICATION_GZIP, APPLICATION_OCTET_STREAM, APPLICATION_XZ};
use crate::text::str_eq;
use vstd::prelude::*;

verus! {

/// The compressed archive of a compatibility tool, with its file name.
pub struct DownloadedArchive {
    pub compressed_content: Vec<u8>,
    pub file_name: String,
}

impl DownloadedArchive {
    /// The archive with the given content and file name.
    pub fn new(compressed_content: Vec<u8>, file_name: String) -> (archive: DownloadedArchive)
        ensures
            archive.compressed_content == compressed_content,
            archive.file_name == file_name,
    {
        DownloadedArchive { compressed_content, file_name }
    }
}

/// The checksum that the archive of a compatibility tool should have, with
/// the name of the checksum file.
pub struct DownloadedChecksum {
    pub checksum: String,
    pub file_name: String,
}

impl DownloadedChecksum {
    /// The checksum with the given text and file name.
    pub fn new(checksum: String, file_name: String) -> (downloaded: DownloadedChecksum)
        ensures
            downloaded.checksum == checksum,
            downloaded.file_name == file_name,
    {
        DownloadedChecksum { checksum, file_name }
    }
}

/// The assets of one release, as they were fetched. The checksum is not
/// held against the archive here: that is for the one who receives them.
pub struct DownloadedAssets {
    /// The tag of the release.
    pub tag: String,
    /// The compressed archive.
    pub compressed_archive: DownloadedArchive,
    /// The checksum of the archive; `None` where none was asked for.
    pub checksum: Option<DownloadedChecksum>,
}

impl DownloadedAssets {
    /// The assets of the release with the given tag.
    pub fn new(
        tag: String,
        compressed_archive: DownloadedArchive,
        checksum: Option<DownloadedChecksum>,
    ) -> (assets: DownloadedAssets)
        ensures
            assets.tag == tag,
            assets.compressed_archive == compressed_archive,
            assets.checksum == checksum,
    {
        DownloadedAssets { tag, compressed_archive, checksum }
    }
}

/// One file of a release: its name, the kind of its content and the address
/// from which it can be fetched.
#[derive(Debug)]
pub struct GeAsset {
    /// The file name of the asset.
    pub name: String,
    pub content_type: String,
    pub browser_download_url: String,
}

impl GeAsset {
    /// The asset with the given name, content type and address.
    pub fn new(name: &str, content_type: &str, browser_download_url: &str) -> (asset: GeAsset)
        ensures
            asset.name@ == name@,
            asset.content_type@ == content_type@,
            asset.browser_download_url@ == browser_download_url@,
    {
        GeAsset {
            name: String::from_str(name),
            content_type: String::from_str(content_type),
            browser_download_url: String::from_str(browser_download_url),
        }
    }
}

impl Clone for GeAsset {
    fn clone(&self) -> (copy: GeAsset)
        ensures
            copy == *self,
    {
        GeAsset {
            name: self.name.clone(),
            content_type: self.content_type.clone(),
            browser_download_url: self.browser_download_url.clone(),
        }
    }
}

/// The asset holds a checksum: its content is a plain stream of bytes.
pub open spec fn holds_checksum(asset: GeAsset) -> bool {
    asset.content_type@ == APPLICATION_OCTET_STREAM@
}

/// The asset holds an archive: its content is compressed with gzip or xz.
pub open spec fn holds_archive(asset: GeAsset) -> bool {
    asset.content_type@ == APPLICATION_GZIP@ || asset.content_type@ == APPLICATION_XZ@
}

/// Asset `i` is the first of `assets` of which `wanted` holds.
pub open spec fn is_first(assets: Seq<GeAsset>, wanted: spec_fn(GeAsset) -> bool, i: int) -> bool {
    &&& 0 <= i < assets.len()
    &&& wanted(assets[i])
    &&& forall|j: int| 0 <= j < i ==> !wanted(#[trigger] assets[j])
}

/// `wanted` holds of some asset.
pub open spec fn has_some(assets: Seq<GeAsset>, wanted: spec_fn(GeAsset) -> bool) -> bool {
    exists|i: int| 0 <= i < assets.len() && wanted(#[trigger] assets[i])
}

/// The test for a checksum asset.
pub open spec fn checksum_test() -> spec_fn(GeAsset) -> bool {
    |asset: GeAsset| holds_checksum(asset)
}

/// The test for an archive asset.
pub open spec fn archive_test() -> spec_fn(GeAsset) -> bool {
    |asset: GeAsset| holds_archive(asset)
}

/// Where only one asset passes a test, that asset is the first to pass it,
/// wherever it stands in the list.
pub proof fn law_sole_asset_is_first(
    assets: Seq<GeAsset>,
    wanted: spec_fn(GeAsset) -> bool,
    i: int,
)
    requires
        0 <= i < assets.len(),
        wanted(assets[i]),
        forall|j: int| 0 <= j < assets.len() && j != i ==> !wanted(#[trigger] assets[j]),
    ensures
        is_first(assets, wanted, i),
{
}

/// One published release: its tag and its assets.
#[derive(Debug)]
pub struct GeRelease {
    pub tag_name: String,
    pub assets: Vec<GeAsset>,
}

impl GeRelease {
    /// The release with the given tag and assets.
    pub fn new(tag_name: String, assets: Vec<GeAsset>) -> (release: GeRelease)
        ensures
            release.tag_name == tag_name,
            release.assets == assets,
    {
        GeRelease { tag_name, assets }
    }

    /// Whether the asset holds a checksum.
    pub fn is_checksum_asset(asset: &GeAsset) -> (is: bool)
        ensures
            is == holds_checksum(*asset),
    {
        str_eq(asset.content_type.as_str(), APPLICATION_OCTET_STREAM)
    }

    /// Whether the asset holds an archive.
    pub fn is_tar_asset(asset: &GeAsset) -> (is: bool)
        ensures
            is == holds_archive(*asset),
    {
        str_eq(asset.content_type.as_str(), APPLICATION_GZIP) || str_eq(
            asset.content_type.as_str(),
            APPLICATION_XZ,
        )
    }

    /// The place of the first asset that holds a checksum, where there is
    /// one.
    pub fn find_checksum_asset(&self) -> (found: Option<usize>)
        ensures
            found matches Some(i) ==> is_first(self.assets@, checksum_test(), i as int),
            found is None ==> !has_some(self.assets@, checksum_test()),
    {
        let mut i: usize = 0;
        while i < self.assets.len()
            invariant
                forall|j: int| 0 <= j < i ==> !holds_checksum(#[trigger] self.assets@[j]),
            decreases self.assets.len() - i,
        {
            if GeRelease::is_checksum_asset(&self.assets[i]) {
                return Some(i);
            }
            i += 1;
        }
        None
    }

    /// The place of the first asset that holds an archive, where there is
    /// one.
    pub fn find_tar_asset(&self) -> (found: Option<usize>)
        ensures
            found matches Some(i) ==> is_first(self.assets@, archive_test(), i as int),
            found is None ==> !has_some(self.assets@, archive_test()),
    {
        let mut i: usize = 0;
        while i < self.assets.len()
            invariant
                forall|j: int| 0 <= j < i ==> !holds_archive(#[trigger] self.assets@[j]),
            decreases self.assets.len() - i,
        {
            if GeRelease::is_tar_asset(&self.assets[i]) {
                return Some(i);
            }
            i += 1;
        }
        None
    }

    /// The first asset that holds a checksum.
    pub fn checksum_asset(&self) -> (asset: &GeAsset)
        requires
            has_some(self.assets@, checksum_test()),
        ensures
            exists|i: int| is_first(self.assets@, checksum_test(), i) && *asset == self.assets@[i],
    {
        let found = self.find_checksum_asset();
        &self.assets[found.unwrap()]
    }

    /// The first asset that holds an archive.
    pub fn tar_asset(&self) -> (asset: &GeAsset)
        requires
            has_some(self.assets@, archive_test()),
        ensures
            exists|i: int| is_first(self.assets@, archive_test(), i) && *asset == self.assets@[i],
    {
        let found = self.find_tar_asset();
        &self.assets[found.unwrap()]
    }
}

} // verus!
