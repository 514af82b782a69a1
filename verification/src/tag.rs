//! Release tags and the kinds of compatibility tool that they belong to.

use crate::canonical::{
    candidate_shadowed, law_canonical_text_reads_back, lemma_canonical_text_is_ascii, well_formed,
};
use crate::error::{TagKindError, TagParseError};
use crate::number_runs::{ascii_runs_are_blocks, find_number_runs, number_runs, run_views};
use crate::semver::{canonical_text, parse_outcome, SemVerView};
use crate::text::str_eq;
use crate::version_order::version_order;
use std::cmp::Ordering;
use vstd::prelude::*;
use vstd::std_specs::cmp::{PartialEqSpecImpl, PartialOrdSpecImpl};
use vstd::std_specs::convert::{FromSpecImpl, TryFromSpecImpl};

pub use crate::semver::SemVer;

verus! {

/// The name of Proton GE as a tag kind.
pub const PROTON: &'static str = "PROTON";

/// The name of Wine GE as a tag kind.
pub const WINE: &'static str = "WINE";

/// The name of Wine GE for League of Legends as a tag kind.
pub const LOL_WINE: &'static str = "LOL_WINE";

/// A release tag: the text as it was published, and the version that the
/// text was read as.
///
/// Two tags are equal, and are ordered, by their versions alone. A tag has no
/// hash of its own, since equal tags may differ in their text: hash its
/// version.
#[derive(Debug)]
pub struct Tag {
    str: String,
    semver: SemVer,
}

/// What a `Tag` stands for.
pub struct TagView {
    pub raw: Seq<char>,
    pub semver: SemVerView,
}

impl View for Tag {
    type V = TagView;

    closed spec fn view(&self) -> TagView {
        TagView { raw: self.str@, semver: self.semver@ }
    }
}

/// The version without numbers and without an identifier, `0.0.0`.
pub open spec fn zero_version() -> SemVerView {
    SemVerView { major: 0, minor: 0, patch: 0, identifier: None }
}

impl Tag {
    /// The tag with the given text, read as a version. The text must be one
    /// that can be read: `try_new` tells.
    pub fn new(git_tag: &str) -> (tag: Tag)
        requires
            parse_outcome(git_tag@, number_runs(git_tag@)) is Ok,
        ensures
            tag@.raw == git_tag@,
            Ok::<SemVerView, TagParseError>(tag@.semver) == parse_outcome(
                git_tag@,
                number_runs(git_tag@),
            ),
            ascii_runs_are_blocks(git_tag@),
    {
        let semver = SemVer::from_git_tag(git_tag);
        Tag { str: String::from_str(git_tag), semver }
    }

    /// The tag with the given text where it can be read as a version, and
    /// else the reason why it cannot.
    pub fn try_new(git_tag: &str) -> (outcome: Result<Tag, TagParseError>)
        ensures
            ascii_runs_are_blocks(git_tag@),
            match outcome {
                Ok(tag) => {
                    &&& tag@.raw == git_tag@
                    &&& Ok::<SemVerView, TagParseError>(tag@.semver) == parse_outcome(
                        git_tag@,
                        number_runs(git_tag@),
                    )
                },
                Err(error) => Err::<SemVerView, TagParseError>(error) == parse_outcome(
                    git_tag@,
                    number_runs(git_tag@),
                ),
            },
    {
        let runs = find_number_runs(git_tag);
        match SemVer::parse_number_runs(git_tag, runs) {
            Ok(_) => Ok(Tag::new(git_tag)),
            Err(error) => Err(error),
        }
    }

    /// The tag whose text is the canonical text of `semver`. It reads as
    /// `semver` itself, which must be well formed and name no release
    /// candidate whose number begins with the numeral of its second or third
    /// number.
    pub fn canonical(semver: &SemVer) -> (tag: Tag)
        requires
            well_formed(semver@),
            !candidate_shadowed(semver@),
        ensures
            tag@.raw == canonical_text(semver@),
            tag@.semver == semver@,
            parse_outcome(tag@.raw, number_runs(tag@.raw)) == Ok::<SemVerView, TagParseError>(
                semver@,
            ),
    {
        let text = semver.str();
        let runs = find_number_runs(text.as_str());
        proof {
            lemma_canonical_text_is_ascii(semver@);
            law_canonical_text_reads_back(semver@, run_views(runs@));
        }
        Tag::new(text.as_str())
    }

    /// The tag with the given text and version, as it was stored: the
    /// version is taken as it is and not read from the text again.
    pub fn from_parts(str: String, semver: SemVer) -> (tag: Tag)
        ensures
            tag@ == (TagView { raw: str@, semver: semver@ }),
    {
        Tag { str, semver }
    }

    /// The version that the tag was read as.
    pub fn semver(&self) -> (semver: &SemVer)
        ensures
            semver@ == self@.semver,
    {
        &self.semver
    }

    /// The text of the tag.
    pub fn str(&self) -> (text: &String)
        ensures
            text@ == self@.raw,
    {
        &self.str
    }

    /// How this tag stands to `other`, by their versions.
    pub fn cmp(&self, other: &Tag) -> (order: Ordering)
        ensures
            order == version_order(self@.semver, other@.semver),
    {
        if self.semver.precedes(&other.semver) {
            Ordering::Less
        } else if other.semver.precedes(&self.semver) {
            Ordering::Greater
        } else {
            Ordering::Equal
        }
    }
}

impl Clone for Tag {
    fn clone(&self) -> (copy: Tag)
        ensures
            copy@ == self@,
    {
        Tag { str: self.str.clone(), semver: self.semver.clone() }
    }
}

impl Default for Tag {
    /// The tag with the empty text, which reads as `0.0.0`.
    fn default() -> (tag: Tag)
        ensures
            tag@ == (TagView { raw: Seq::empty(), semver: zero_version() }),
            parse_outcome(tag@.raw, number_runs(tag@.raw)) == Ok::<SemVerView, TagParseError>(
                tag@.semver,
            ),
    {
        proof {
            reveal_strlit("");
        }
        let runs = find_number_runs("");
        assert(""@ =~= Seq::<char>::empty());
        let semver = SemVer::parse_number_runs("", runs).unwrap();
        Tag { str: String::new(), semver }
    }
}

impl AsRef<str> for Tag {
    fn as_ref(&self) -> (text: &str)
        ensures
            text@ == self@.raw,
    {
        self.str.as_str()
    }
}

impl PartialEq for Tag {
    fn eq(&self, other: &Tag) -> (same: bool) {
        self.semver == other.semver
    }
}

impl PartialEqSpecImpl for Tag {
    open spec fn obeys_eq_spec() -> bool {
        true
    }

    open spec fn eq_spec(&self, other: &Tag) -> bool {
        self@.semver == other@.semver
    }
}

impl Eq for Tag {

}

impl PartialOrd for Tag {
    fn partial_cmp(&self, other: &Tag) -> (order: Option<Ordering>) {
        Some(self.cmp(other))
    }
}

impl PartialOrdSpecImpl for Tag {
    open spec fn obeys_partial_cmp_spec() -> bool {
        true
    }

    open spec fn partial_cmp_spec(&self, other: &Tag) -> Option<Ordering> {
        Some(version_order(self@.semver, other@.semver))
    }
}

/// The kind of compatibility tool that a tag belongs to. The kinds are
/// ordered as they are declared: Proton, Wine GE, Wine GE for League of
/// Legends.
#[derive(Debug, Clone, Copy, PartialEq, Eq, Structural, Ord)]
pub enum TagKind {
    /// Proton GE.
    Proton,
    /// Wine GE, in one of its flavours.
    Wine { kind: WineTagKind },
}

/// The flavour of a Wine GE version. The flavours are ordered as they are
/// declared.
#[derive(Debug, Clone, Copy, PartialEq, Eq, Structural, Ord)]
pub enum WineTagKind {
    /// Wine with GE's patches.
    WineGe,
    /// The build for League of Legends.
    LolWineGe,
}

/// The place of a flavour in the order of flavours.
pub open spec fn flavour_rank(kind: WineTagKind) -> int {
    match kind {
        WineTagKind::WineGe => 0,
        WineTagKind::LolWineGe => 1,
    }
}

/// The place of a kind in the order of kinds.
pub open spec fn kind_rank(kind: TagKind) -> int {
    match kind {
        TagKind::Proton => 0,
        TagKind::Wine { kind } => 1 + flavour_rank(kind),
    }
}

/// How the place `a` stands to the place `b`.
pub open spec fn rank_order(a: int, b: int) -> Ordering {
    if a < b {
        Ordering::Less
    } else if a > b {
        Ordering::Greater
    } else {
        Ordering::Equal
    }
}

impl PartialOrd for WineTagKind {
    fn partial_cmp(&self, other: &WineTagKind) -> (order: Option<Ordering>) {
        match (self, other) {
            (WineTagKind::WineGe, WineTagKind::LolWineGe) => Some(Ordering::Less),
            (WineTagKind::LolWineGe, WineTagKind::WineGe) => Some(Ordering::Greater),
            _ => Some(Ordering::Equal),
        }
    }
}

impl PartialOrdSpecImpl for WineTagKind {
    open spec fn obeys_partial_cmp_spec() -> bool {
        true
    }

    open spec fn partial_cmp_spec(&self, other: &WineTagKind) -> Option<Ordering> {
        Some(rank_order(flavour_rank(*self), flavour_rank(*other)))
    }
}

impl PartialOrd for TagKind {
    fn partial_cmp(&self, other: &TagKind) -> (order: Option<Ordering>) {
        match (self, other) {
            (TagKind::Proton, TagKind::Proton) => Some(Ordering::Equal),
            (TagKind::Proton, TagKind::Wine { .. }) => Some(Ordering::Less),
            (TagKind::Wine { .. }, TagKind::Proton) => Some(Ordering::Greater),
            (TagKind::Wine { kind: mine }, TagKind::Wine { kind: theirs }) => mine.partial_cmp(
                theirs,
            ),
        }
    }
}

impl PartialOrdSpecImpl for TagKind {
    open spec fn obeys_partial_cmp_spec() -> bool {
        true
    }

    open spec fn partial_cmp_spec(&self, other: &TagKind) -> Option<Ordering> {
        Some(rank_order(kind_rank(*self), kind_rank(*other)))
    }
}

/// The name of the compatibility tool of a kind, for a reader.
pub open spec fn tool_name(kind: TagKind) -> Seq<char> {
    match kind {
        TagKind::Proton => "Proton GE"@,
        TagKind::Wine { kind: WineTagKind::WineGe } => "Wine GE"@,
        TagKind::Wine { kind: WineTagKind::LolWineGe } => "Wine GE (LoL)"@,
    }
}

/// The name of the family of a kind, for a reader.
pub open spec fn tool_kind(kind: TagKind) -> Seq<char> {
    match kind {
        TagKind::Proton => "Proton"@,
        TagKind::Wine { .. } => "Wine"@,
    }
}

/// The name under which a kind is stored.
pub open spec fn kind_name(kind: TagKind) -> Seq<char> {
    match kind {
        TagKind::Proton => PROTON@,
        TagKind::Wine { kind: WineTagKind::WineGe } => WINE@,
        TagKind::Wine { kind: WineTagKind::LolWineGe } => LOL_WINE@,
    }
}

/// The kind that is stored under `name`, where there is one.
pub open spec fn kind_named(name: Seq<char>) -> Result<TagKind, TagKindError> {
    if name == PROTON@ {
        Ok(TagKind::Proton)
    } else if name == WINE@ {
        Ok(TagKind::Wine { kind: WineTagKind::WineGe })
    } else if name == LOL_WINE@ {
        Ok(TagKind::Wine { kind: WineTagKind::LolWineGe })
    } else {
        Err(TagKindError::UnknownString)
    }
}

/// Every kind is found again under the name that it is stored under.
pub proof fn law_kind_name_round_trip(kind: TagKind)
    ensures
        kind_named(kind_name(kind)) == Ok::<TagKind, TagKindError>(kind),
{
    reveal_strlit("PROTON");
    reveal_strlit("WINE");
    reveal_strlit("LOL_WINE");
    assert(PROTON@.len() == 6);
    assert(WINE@.len() == 4);
    assert(LOL_WINE@.len() == 8);
}

impl TagKind {
    /// The kind of Wine GE.
    pub fn wine() -> (kind: TagKind)
        ensures
            kind == (TagKind::Wine { kind: WineTagKind::WineGe }),
    {
        TagKind::Wine { kind: WineTagKind::WineGe }
    }

    /// The kind of Wine GE for League of Legends.
    pub fn lol() -> (kind: TagKind)
        ensures
            kind == (TagKind::Wine { kind: WineTagKind::LolWineGe }),
    {
        TagKind::Wine { kind: WineTagKind::LolWineGe }
    }

    /// All kinds, in the order in which they are declared.
    pub fn values() -> (kinds: Vec<TagKind>)
        ensures
            kinds@ == seq![
                TagKind::Proton,
                TagKind::Wine { kind: WineTagKind::WineGe },
                TagKind::Wine { kind: WineTagKind::LolWineGe },
            ],
    {
        let mut kinds: Vec<TagKind> = Vec::new();
        kinds.push(TagKind::Proton);
        kinds.push(TagKind::wine());
        kinds.push(TagKind::lol());
        assert(kinds@ =~= seq![
            TagKind::Proton,
            TagKind::Wine { kind: WineTagKind::WineGe },
            TagKind::Wine { kind: WineTagKind::LolWineGe },
        ]);
        kinds
    }

    /// The name of the compatibility tool, for a reader.
    pub fn compatibility_tool_name(&self) -> (name: String)
        ensures
            name@ == tool_name(*self),
    {
        let name = match self {
            TagKind::Proton => "Proton GE",
            TagKind::Wine { kind } => match kind {
                WineTagKind::WineGe => "Wine GE",
                WineTagKind::LolWineGe => "Wine GE (LoL)",
            },
        };
        String::from_str(name)
    }

    /// The name of the family of the compatibility tool, for a reader.
    pub fn compatibility_tool_kind(&self) -> (name: String)
        ensures
            name@ == tool_kind(*self),
    {
        let name = match self {
            TagKind::Proton => "Proton",
            TagKind::Wine { .. } => "Wine",
        };
        String::from_str(name)
    }

    /// The name under which the kind is stored.
    pub fn str(&self) -> (name: String)
        ensures
            name@ == kind_name(*self),
    {
        let name = match self {
            TagKind::Proton => PROTON,
            TagKind::Wine { kind } => match kind {
                WineTagKind::WineGe => WINE,
                WineTagKind::LolWineGe => LOL_WINE,
            },
        };
        String::from_str(name)
    }

    /// The kind that is stored under `str`; the name must match to the
    /// letter.
    pub fn from_str(str: &str) -> (outcome: Result<TagKind, TagKindError>)
        ensures
            outcome == kind_named(str@),
    {
        if str_eq(str, PROTON) {
            Ok(TagKind::Proton)
        } else if str_eq(str, WINE) {
            Ok(TagKind::wine())
        } else if str_eq(str, LOL_WINE) {
            Ok(TagKind::lol())
        } else {
            Err(TagKindError::UnknownString)
        }
    }
}

impl From<WineTagKind> for TagKind {
    fn from(kind: WineTagKind) -> (tag_kind: TagKind) {
        TagKind::Wine { kind }
    }
}

impl FromSpecImpl<WineTagKind> for TagKind {
    open spec fn obeys_from_spec() -> bool {
        true
    }

    open spec fn from_spec(kind: WineTagKind) -> TagKind {
        TagKind::Wine { kind }
    }
}

impl<'a> From<&'a WineTagKind> for TagKind {
    fn from(kind: &'a WineTagKind) -> (tag_kind: TagKind) {
        TagKind::Wine { kind: *kind }
    }
}

impl<'a> FromSpecImpl<&'a WineTagKind> for TagKind {
    open spec fn obeys_from_spec() -> bool {
        true
    }

    open spec fn from_spec(kind: &'a WineTagKind) -> TagKind {
        TagKind::Wine { kind: *kind }
    }
}

impl<'a> TryFrom<&'a str> for TagKind {
    type Error = TagKindError;

    fn try_from(value: &'a str) -> (outcome: Result<TagKind, TagKindError>) {
        TagKind::from_str(value)
    }
}

impl<'a> TryFromSpecImpl<&'a str> for TagKind {
    open spec fn obeys_try_from_spec() -> bool {
        true
    }

    open spec fn try_from_spec(value: &'a str) -> Result<TagKind, TagKindError> {
        kind_named(value@)
    }
}

impl TryFrom<String> for TagKind {
    type Error = TagKindError;

    fn try_from(value: String) -> (outcome: Result<TagKind, TagKindError>) {
        TagKind::from_str(value.as_str())
    }
}

impl TryFromSpecImpl<String> for TagKind {
    open spec fn obeys_try_from_spec() -> bool {
        true
    }

    open spec fn try_from_spec(value: String) -> Result<TagKind, TagKindError> {
        kind_named(value@)
    }
}

impl WineTagKind {
    /// The flavour that is stored under `string`, which is one of the two
    /// names of a Wine kind.
    pub fn from(string: &str) -> (kind: WineTagKind)
        requires
            string@ == WINE@ || string@ == LOL_WINE@,
        ensures
            kind_named(string@) == Ok::<TagKind, TagKindError>(TagKind::Wine { kind }),
    {
        proof {
            reveal_strlit("PROTON");
            reveal_strlit("WINE");
            reveal_strlit("LOL_WINE");
            assert(PROTON@.len() == 6);
            assert(WINE@.len() == 4);
            assert(LOL_WINE@.len() == 8);
        }
        if str_eq(string, WINE) {
            WineTagKind::WineGe
        } else {
            WineTagKind::LolWineGe
        }
    }
}

} // verus!
