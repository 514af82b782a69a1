use ge_man_lib::download::response::{
    DownloadedArchive, DownloadedAssets, DownloadedChecksum, GeAsset, GeRelease,
};
use ge_man_lib::download::{APPLICATION_GZIP, APPLICATION_OCTET_STREAM, APPLICATION_XZ};

#[test]
fn get_checksum_asset() {
    let tag = String::from("6.20-GE-1");
    let assets = vec![
        GeAsset::new("Proton-6.20-GE-1.tar.gz", APPLICATION_GZIP, "gzip"),
        GeAsset::new("Proton-6.20-GE-1.sha512sum", APPLICATION_OCTET_STREAM, "octet"),
    ];
    let release = GeRelease::new(tag, assets);

    let checksum_asset = release.checksum_asset();
    assert_eq!(checksum_asset.name, "Proton-6.20-GE-1.sha512sum");
    assert_eq!(checksum_asset.content_type, APPLICATION_OCTET_STREAM);
    assert_eq!(checksum_asset.browser_download_url, "octet");
}

#[test]
fn get_archive_asset() {
    let tag = String::from("6.20-GE-1");
    let assets = vec![
        GeAsset::new("Proton-6.20-GE-1.tar.gz", APPLICATION_GZIP, "gzip"),
        GeAsset::new("Proton-6.20-GE-1.sha512sum", APPLICATION_OCTET_STREAM, "octet"),
    ];
    let release = GeRelease::new(tag, assets);

    let gzip_asset = release.tar_asset();
    assert_eq!(gzip_asset.name, "Proton-6.20-GE-1.tar.gz");
    assert_eq!(gzip_asset.content_type, APPLICATION_GZIP);
    assert_eq!(gzip_asset.browser_download_url, "gzip");
}

#[test]
fn assets_are_found_in_either_order() {
    let assets = vec![
        GeAsset::new("Proton-6.20-GE-1.sha512sum", APPLICATION_OCTET_STREAM, "octet"),
        GeAsset::new("Proton-6.20-GE-1.tar.gz", APPLICATION_GZIP, "gzip"),
    ];
    let release = GeRelease::new(String::from("6.20-GE-1"), assets);
    assert_eq!(release.tar_asset().browser_download_url, "gzip");
    assert_eq!(release.checksum_asset().browser_download_url, "octet");
    assert_eq!(release.find_tar_asset(), Some(1));
    assert_eq!(release.find_checksum_asset(), Some(0));
}

#[test]
fn xz_asset_is_an_archive() {
    let assets = vec![
        GeAsset::new("notes.txt", "text/plain", "notes"),
        GeAsset::new("wine-lutris-GE-Proton7-8.sha512sum", APPLICATION_OCTET_STREAM, "octet"),
        GeAsset::new("wine-lutris-GE-Proton7-8.tar.xz", APPLICATION_XZ, "xz"),
    ];
    let release = GeRelease::new(String::from("GE-Proton7-8"), assets);
    assert_eq!(release.tar_asset().name, "wine-lutris-GE-Proton7-8.tar.xz");
    assert_eq!(release.find_tar_asset(), Some(2));
    assert_eq!(release.find_checksum_asset(), Some(1));
}

#[test]
fn first_of_several_archives_is_taken() {
    let assets = vec![
        GeAsset::new("a.tar.xz", APPLICATION_XZ, "first"),
        GeAsset::new("b.tar.gz", APPLICATION_GZIP, "second"),
    ];
    let release = GeRelease::new(String::from("6.20-GE-1"), assets);
    assert_eq!(release.tar_asset().browser_download_url, "first");
}

#[test]
fn release_without_checksum_has_no_checksum_asset() {
    let assets = vec![GeAsset::new("Proton-6.20-GE-1.tar.gz", APPLICATION_GZIP, "gzip")];
    let release = GeRelease::new(String::from("6.20-GE-1"), assets);
    assert_eq!(release.find_checksum_asset(), None);
    assert_eq!(release.find_tar_asset(), Some(0));
}

#[test]
fn release_without_assets_has_neither() {
    let release = GeRelease::new(String::from("6.20-GE-1"), vec![]);
    assert_eq!(release.find_checksum_asset(), None);
    assert_eq!(release.find_tar_asset(), None);
}

#[test]
fn content_types_are_matched_to_the_letter() {
    let gzip = GeAsset::new("a", "application/gzip", "u");
    let upper = GeAsset::new("a", "Application/Gzip", "u");
    let octet = GeAsset::new("a", "application/octet-stream", "u");
    assert!(GeRelease::is_tar_asset(&gzip));
    assert!(!GeRelease::is_tar_asset(&upper));
    assert!(!GeRelease::is_tar_asset(&octet));
    assert!(GeRelease::is_checksum_asset(&octet));
    assert!(!GeRelease::is_checksum_asset(&gzip));
}

#[test]
fn clone_keeps_every_field_of_an_asset() {
    let asset = GeAsset::new("Proton-6.20-GE-1.tar.gz", APPLICATION_GZIP, "gzip");
    let copy = asset.clone();
    assert_eq!(copy.name, "Proton-6.20-GE-1.tar.gz");
    assert_eq!(copy.content_type, APPLICATION_GZIP);
    assert_eq!(copy.browser_download_url, "gzip");
}

#[test]
fn downloaded_assets_hold_what_they_were_given() {
    let archive = DownloadedArchive::new(vec![1, 2, 3], String::from("Proton-6.20-GE-1.tar.gz"));
    let checksum =
        DownloadedChecksum::new(String::from("abc"), String::from("Proton-6.20-GE-1.sha512sum"));
    let assets = DownloadedAssets::new(String::from("6.20-GE-1"), archive, Some(checksum));
    assert_eq!(assets.tag, "6.20-GE-1");
    assert_eq!(assets.compressed_archive.compressed_content, vec![1, 2, 3]);
    assert_eq!(assets.compressed_archive.file_name, "Proton-6.20-GE-1.tar.gz");
    let checksum = assets.checksum.unwrap();
    assert_eq!(checksum.checksum, "abc");
    assert_eq!(checksum.file_name, "Proton-6.20-GE-1.sha512sum");
}
