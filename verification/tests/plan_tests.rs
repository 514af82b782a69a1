use ge_man_lib::download::response::{GeAsset, GeRelease};
use ge_man_lib::download::{
    choose_assets, plan_download, select_release, DownloadPlan, DownloadRequest, ReleaseError,
    APPLICATION_GZIP, APPLICATION_OCTET_STREAM, APPLICATION_XZ,
};
use ge_man_lib::error::{LutrisConfigError, SteamConfigError};
use ge_man_lib::tag::TagKind;

fn full_release(tag: &str) -> GeRelease {
    GeRelease::new(
        String::from(tag),
        vec![
            GeAsset::new("tool.sha512sum", APPLICATION_OCTET_STREAM, "octet"),
            GeAsset::new("tool.tar.gz", APPLICATION_GZIP, "gzip"),
        ],
    )
}

fn request(tag: Option<&str>, download_checksum: bool) -> DownloadRequest {
    DownloadRequest { tag: tag.map(String::from), kind: TagKind::Proton, download_checksum }
}

#[test]
fn latest_release_is_the_first_listed() {
    let releases = vec![full_release("GE-Proton7-8"), full_release("GE-Proton7-7")];
    assert_eq!(select_release(&releases, &None), Some(0));
    assert_eq!(
        plan_download(&releases, &request(None, true)).unwrap(),
        DownloadPlan { release: 0, archive: 1, checksum: Some(0) }
    );
}

#[test]
fn release_is_found_by_its_tag() {
    let releases = vec![
        full_release("GE-Proton7-8"),
        full_release("GE-Proton7-7"),
        full_release("GE-Proton7-7"),
    ];
    assert_eq!(select_release(&releases, &Some(String::from("GE-Proton7-7"))), Some(1));
    assert_eq!(select_release(&releases, &Some(String::from("GE-Proton7-8"))), Some(0));
    assert_eq!(select_release(&releases, &Some(String::from("GE-Proton7"))), None);
    assert_eq!(select_release(&releases, &Some(String::from("ge-proton7-8"))), None);
    assert_eq!(
        plan_download(&releases, &request(Some("GE-Proton7-7"), false)).unwrap(),
        DownloadPlan { release: 1, archive: 1, checksum: None }
    );
}

#[test]
fn empty_list_has_no_tags() {
    let releases: Vec<GeRelease> = vec![];
    assert_eq!(select_release(&releases, &None), None);
    assert!(matches!(plan_download(&releases, &request(None, true)), Err(ReleaseError::NoTags)));
    assert!(matches!(
        plan_download(&releases, &request(Some("6.20-GE-1"), true)),
        Err(ReleaseError::NoTags)
    ));
}

#[test]
fn unknown_tag_is_not_found() {
    let releases = vec![full_release("GE-Proton7-8")];
    match plan_download(&releases, &request(Some("GE-Proton7-9"), true)) {
        Err(ReleaseError::TagNotFound { tag, kind }) => {
            assert_eq!(tag, "GE-Proton7-9");
            assert_eq!(kind, TagKind::Proton);
        }
        other => panic!("{:?}", other),
    }
}

#[test]
fn release_without_assets_is_told_apart() {
    let release = GeRelease::new(String::from("6.20-GE-1"), vec![]);
    match choose_assets(&release, 0, TagKind::wine(), true) {
        Err(ReleaseError::ReleaseHasNoAssets { tag, kind }) => {
            assert_eq!(tag, "6.20-GE-1");
            assert_eq!(kind, TagKind::wine());
        }
        other => panic!("{:?}", other),
    }
    assert!(matches!(
        choose_assets(&release, 0, TagKind::wine(), false),
        Err(ReleaseError::ReleaseHasNoAssets { .. })
    ));
}

#[test]
fn missing_archive_is_reported() {
    let release = GeRelease::new(
        String::from("6.20-GE-1"),
        vec![GeAsset::new("tool.sha512sum", APPLICATION_OCTET_STREAM, "octet")],
    );
    match choose_assets(&release, 3, TagKind::Proton, true) {
        Err(ReleaseError::MissingArchive { tag, kind }) => {
            assert_eq!(tag, "6.20-GE-1");
            assert_eq!(kind, TagKind::Proton);
        }
        other => panic!("{:?}", other),
    }
}

#[test]
fn missing_checksum_is_reported_only_where_it_is_wanted() {
    let release = GeRelease::new(
        String::from("6.20-GE-1"),
        vec![GeAsset::new("tool.tar.xz", APPLICATION_XZ, "xz")],
    );
    match choose_assets(&release, 2, TagKind::lol(), true) {
        Err(ReleaseError::MissingChecksum { tag, kind }) => {
            assert_eq!(tag, "6.20-GE-1");
            assert_eq!(kind, TagKind::lol());
        }
        other => panic!("{:?}", other),
    }
    assert_eq!(
        choose_assets(&release, 2, TagKind::lol(), false).unwrap(),
        DownloadPlan { release: 2, archive: 0, checksum: None }
    );
}

#[test]
fn io_errors_become_config_errors() {
    let error = SteamConfigError::from(std::io::Error::new(std::io::ErrorKind::NotFound, "gone"));
    match error {
        SteamConfigError::IoError { source } => {
            assert_eq!(source.kind(), std::io::ErrorKind::NotFound)
        }
        other => panic!("{:?}", other),
    }
    let error =
        LutrisConfigError::from(std::io::Error::new(std::io::ErrorKind::PermissionDenied, "no"));
    match error {
        LutrisConfigError::IoError { source } => {
            assert_eq!(source.kind(), std::io::ErrorKind::PermissionDenied)
        }
        other => panic!("{:?}", other),
    }
}
