//! Releases, their assets, and the choice of what to fetch.

use crate::download::response::{
    archive_test, checksum_test, has_some, is_first, GeAsset, GeRelease,
};
use crate::tag::TagKind;
use crate::text::str_eq;
use vstd::prelude::*;

pub mod response;

verus! {

/// The content type of an archive compressed with gzip.
pub const APPLICATION_GZIP: &'static str = "application/gzip";

/// The content type of a plain stream of bytes, as a checksum file has it.
pub const APPLICATION_OCTET_STREAM: &'static str = "application/octet-stream";

/// The content type of an archive compressed with xz.
pub const APPLICATION_XZ: &'static str = "application/x-xz";

/// What is asked for: a release of one kind of compatibility tool, by its
/// tag or the latest one, with its checksum or without.
pub struct DownloadRequest {
    /// The tag of the release; `None` asks for the latest release.
    pub tag: Option<String>,
    /// The kind of compatibility tool.
    pub kind: TagKind,
    /// Whether the checksum of the archive is wanted too.
    pub download_checksum: bool,
}

/// Why the releases that were listed do not hold what was asked for.
#[derive(Debug)]
pub enum ReleaseError {
    /// No release was listed.
    NoTags,
    /// Releases were listed, but none with the tag that was asked for.
    TagNotFound { tag: String, kind: TagKind },
    /// The release has no assets at all.
    ReleaseHasNoAssets { tag: String, kind: TagKind },
    /// The release has assets, but no archive.
    MissingArchive { tag: String, kind: TagKind },
    /// The release has an archive, but not the checksum that was asked for.
    MissingChecksum { tag: String, kind: TagKind },
}

/// What a `ReleaseError` stands for.
pub enum ReleaseErrorView {
    NoTags,
    TagNotFound { tag: Seq<char>, kind: TagKind },
    ReleaseHasNoAssets { tag: Seq<char>, kind: TagKind },
    MissingArchive { tag: Seq<char>, kind: TagKind },
    MissingChecksum { tag: Seq<char>, kind: TagKind },
}

impl View for ReleaseError {
    type V = ReleaseErrorView;

    open spec fn view(&self) -> ReleaseErrorView {
        match *self {
            ReleaseError::NoTags => ReleaseErrorView::NoTags,
            ReleaseError::TagNotFound { tag, kind } => ReleaseErrorView::TagNotFound {
                tag: tag@,
                kind,
            },
            ReleaseError::ReleaseHasNoAssets {
                tag,
                kind,
            } => ReleaseErrorView::ReleaseHasNoAssets { tag: tag@, kind },
            ReleaseError::MissingArchive { tag, kind } => ReleaseErrorView::MissingArchive {
                tag: tag@,
                kind,
            },
            ReleaseError::MissingChecksum { tag, kind } => ReleaseErrorView::MissingChecksum {
                tag: tag@,
                kind,
            },
        }
    }
}

/// What to fetch: the place of the release in the list, and the places of
/// the archive and of the checksum among its assets.
#[derive(Debug, Clone, Copy, PartialEq, Eq, Structural)]
pub struct DownloadPlan {
    pub release: usize,
    pub archive: usize,
    pub checksum: Option<usize>,
}

/// Release `i` has the tag `tag`.
pub open spec fn has_tag(releases: Seq<GeRelease>, i: int, tag: Seq<char>) -> bool {
    releases[i].tag_name@ == tag
}

/// The place of the release that is asked for: of the latest one, which the
/// list holds first, or of the first one with the wanted tag.
pub open spec fn selection(releases: Seq<GeRelease>, wanted: Option<Seq<char>>) -> Option<int> {
    match wanted {
        None => if releases.len() > 0 {
            Some(0int)
        } else {
            None
        },
        Some(tag) => first_with_tag(releases, tag),
    }
}

/// The place of the first release with the tag `tag`.
pub open spec fn first_with_tag(releases: Seq<GeRelease>, tag: Seq<char>) -> Option<int> {
    if exists|i: int| is_first_with_tag(releases, tag, i) {
        Some(choose|i: int| is_first_with_tag(releases, tag, i))
    } else {
        None
    }
}

/// Release `i` is the first one with the tag `tag`.
pub open spec fn is_first_with_tag(releases: Seq<GeRelease>, tag: Seq<char>, i: int) -> bool {
    &&& 0 <= i < releases.len()
    &&& has_tag(releases, i, tag)
    &&& forall|j: int| 0 <= j < i ==> !has_tag(releases, j, tag)
}

/// The place of the first asset of which `wanted` holds.
pub open spec fn first_asset(assets: Seq<GeAsset>, wanted: spec_fn(GeAsset) -> bool) -> int {
    choose|i: int| is_first(assets, wanted, i)
}

/// The failure for a list of releases, a kind and a wanted tag, or the
/// plan where there is none.
pub open spec fn plan_outcome(
    releases: Seq<GeRelease>,
    wanted: Option<Seq<char>>,
    kind: TagKind,
    download_checksum: bool,
) -> Result<DownloadPlan, ReleaseErrorView> {
    if releases.len() == 0 {
        Err(ReleaseErrorView::NoTags)
    } else {
        match selection(releases, wanted) {
            None => Err(ReleaseErrorView::TagNotFound { tag: wanted->0, kind }),
            Some(release) => assets_outcome(
                releases[release],
                release,
                kind,
                download_checksum,
            ),
        }
    }
}

/// The assets to fetch of the release that stands at `place`, or why it
/// does not hold them.
pub open spec fn assets_outcome(
    release: GeRelease,
    place: int,
    kind: TagKind,
    download_checksum: bool,
) -> Result<DownloadPlan, ReleaseErrorView> {
    let assets = release.assets@;
    let tag = release.tag_name@;
    if assets.len() == 0 {
        Err(ReleaseErrorView::ReleaseHasNoAssets { tag, kind })
    } else if !has_some(assets, archive_test()) {
        Err(ReleaseErrorView::MissingArchive { tag, kind })
    } else if !download_checksum {
        Ok(
            DownloadPlan {
                release: place as usize,
                archive: first_asset(assets, archive_test()) as usize,
                checksum: None,
            },
        )
    } else if !has_some(assets, checksum_test()) {
        Err(ReleaseErrorView::MissingChecksum { tag, kind })
    } else {
        Ok(
            DownloadPlan {
                release: place as usize,
                archive: first_asset(assets, archive_test()) as usize,
                checksum: Some(first_asset(assets, checksum_test()) as usize),
            },
        )
    }
}

/// A plan or a failure says what `expected` says.
pub open spec fn plan_agrees(
    outcome: Result<DownloadPlan, ReleaseError>,
    expected: Result<DownloadPlan, ReleaseErrorView>,
) -> bool {
    match (outcome, expected) {
        (Ok(plan), Ok(wanted)) => plan == wanted,
        (Err(error), Err(failure)) => error@ == failure,
        _ => false,
    }
}

/// The first asset of which a test holds is one asset alone.
pub proof fn lemma_first_asset_is(assets: Seq<GeAsset>, wanted: spec_fn(GeAsset) -> bool, i: int)
    requires
        is_first(assets, wanted, i),
    ensures
        first_asset(assets, wanted) == i,
        has_some(assets, wanted),
{
    let chosen = first_asset(assets, wanted);
    assert(is_first(assets, wanted, chosen));
    if chosen < i {
        assert(!wanted(assets[chosen]));
    } else if i < chosen {
        assert(!wanted(assets[i]));
    }
}

/// The first release with a tag is one release alone.
pub proof fn lemma_selection_is(releases: Seq<GeRelease>, tag: Seq<char>, i: int)
    requires
        is_first_with_tag(releases, tag, i),
    ensures
        selection(releases, Some(tag)) == Some(i),
{
    let chosen = first_with_tag(releases, tag)->0;
    assert(is_first_with_tag(releases, tag, chosen));
    if chosen < i {
        assert(!has_tag(releases, chosen, tag));
    } else if i < chosen {
        assert(!has_tag(releases, i, tag));
    }
}

/// The place of the release that is asked for: the first of the list where
/// the latest is wanted, and else the first with the wanted tag.
pub fn select_release(releases: &Vec<GeRelease>, tag: &Option<String>) -> (chosen: Option<usize>)
    ensures
        match chosen {
            Some(i) => selection(releases@, wanted_tag(*tag)) == Some(i as int),
            None => selection(releases@, wanted_tag(*tag)) is None,
        },
{
    match tag {
        None => {
            if releases.len() > 0 {
                Some(0)
            } else {
                None
            }
        },
        Some(wanted) => {
            let mut i: usize = 0;
            while i < releases.len()
                invariant
                    wanted_tag(*tag) == Some(wanted@),
                    forall|j: int| 0 <= j < i ==> !has_tag(releases@, j, wanted@),
                decreases releases.len() - i,
            {
                if str_eq(releases[i].tag_name.as_str(), wanted.as_str()) {
                    proof {
                        lemma_selection_is(releases@, wanted@, i as int);
                    }
                    return Some(i);
                }
                i += 1;
            }
            None
        },
    }
}

/// The tag that is asked for, where one is.
pub open spec fn wanted_tag(tag: Option<String>) -> Option<Seq<char>> {
    match tag {
        Some(text) => Some(text@),
        None => None,
    }
}

/// The assets to fetch of `release`, which stands at `place` in the list:
/// its archive and, where `download_checksum` is set, its checksum.
pub fn choose_assets(release: &GeRelease, place: usize, kind: TagKind, download_checksum: bool) -> (outcome:
    Result<DownloadPlan, ReleaseError>)
    ensures
        plan_agrees(outcome, assets_outcome(*release, place as int, kind, download_checksum)),
{
    if release.assets.len() == 0 {
        return Err(ReleaseError::ReleaseHasNoAssets { tag: release.tag_name.clone(), kind });
    }
    let archive = match release.find_tar_asset() {
        Some(archive) => archive,
        None => {
            return Err(ReleaseError::MissingArchive { tag: release.tag_name.clone(), kind });
        },
    };
    proof {
        lemma_first_asset_is(release.assets@, archive_test(), archive as int);
    }
    if !download_checksum {
        return Ok(DownloadPlan { release: place, archive, checksum: None });
    }
    match release.find_checksum_asset() {
        Some(checksum) => {
            proof {
                lemma_first_asset_is(release.assets@, checksum_test(), checksum as int);
            }
            Ok(DownloadPlan { release: place, archive, checksum: Some(checksum) })
        },
        None => Err(ReleaseError::MissingChecksum { tag: release.tag_name.clone(), kind }),
    }
}

/// What to fetch for `request` from the releases that were listed, newest
/// first.
pub fn plan_download(releases: &Vec<GeRelease>, request: &DownloadRequest) -> (outcome: Result<
    DownloadPlan,
    ReleaseError,
>)
    ensures
        plan_agrees(
            outcome,
            plan_outcome(
                releases@,
                wanted_tag(request.tag),
                request.kind,
                request.download_checksum,
            ),
        ),
{
    if releases.len() == 0 {
        return Err(ReleaseError::NoTags);
    }
    match select_release(releases, &request.tag) {
        Some(place) => choose_assets(
            &releases[place],
            place,
            request.kind,
            request.download_checksum,
        ),
        None => match &request.tag {
            Some(tag) => Err(ReleaseError::TagNotFound { tag: tag.clone(), kind: request.kind }),
            None => Err(ReleaseError::NoTags),
        },
    }
}

} // verus!
