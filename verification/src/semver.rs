//! Semantic versions and how a tag is read as one.

use crate::decimal::{decimal_text, decimal_value, fits_u8, parse_u8, u8_text};
use crate::error::TagParseError;
use crate::number_runs::{
    ascii_runs_are_blocks, find_number_runs, number_runs, run_views, NumberRun, RunView,
};
use crate::text::{chars_of, contains, contains_text, text_precedes};
use crate::version_order::{version_lt, version_order};
use std::cmp::Ordering;
use vstd::prelude::*;
use vstd::std_specs::cmp::{PartialEqSpecImpl, PartialOrdSpecImpl};

verus! {

/// A version: three numbers and, where the tag carried one, an identifier.
#[derive(Debug, Ord, Hash)]
pub struct SemVer {
    major: u8,
    minor: u8,
    patch: u8,
    identifier: Option<String>,
}

/// What a `SemVer` stands for.
pub struct SemVerView {
    pub major: int,
    pub minor: int,
    pub patch: int,
    pub identifier: Option<Seq<char>>,
}

/// The characters of an optional string.
pub open spec fn text_of(s: Option<String>) -> Option<Seq<char>> {
    match s {
        Some(text) => Some(text@),
        None => None,
    }
}

impl View for SemVer {
    type V = SemVerView;

    closed spec fn view(&self) -> SemVerView {
        SemVerView {
            major: self.major as int,
            minor: self.minor as int,
            patch: self.patch as int,
            identifier: text_of(self.identifier),
        }
    }
}

impl Clone for SemVer {
    fn clone(&self) -> (copy: SemVer)
        ensures
            copy@ == self@,
    {
        let identifier = match &self.identifier {
            Some(text) => Some(text.clone()),
            None => None,
        };
        SemVer { major: self.major, minor: self.minor, patch: self.patch, identifier }
    }
}

impl PartialEq for SemVer {
    fn eq(&self, other: &SemVer) -> (same: bool) {
        let same_identifier = match (&self.identifier, &other.identifier) {
            (None, None) => true,
            (Some(mine), Some(theirs)) => *mine == *theirs,
            _ => false,
        };
        self.major == other.major && self.minor == other.minor && self.patch == other.patch
            && same_identifier
    }
}

impl PartialEqSpecImpl for SemVer {
    open spec fn obeys_eq_spec() -> bool {
        true
    }

    open spec fn eq_spec(&self, other: &SemVer) -> bool {
        self@ == other@
    }
}

impl Eq for SemVer {

}

impl PartialOrd for SemVer {
    fn partial_cmp(&self, other: &SemVer) -> (order: Option<Ordering>) {
        if self.precedes(other) {
            Some(Ordering::Less)
        } else if other.precedes(self) {
            Some(Ordering::Greater)
        } else {
            Some(Ordering::Equal)
        }
    }
}

impl PartialOrdSpecImpl for SemVer {
    open spec fn obeys_partial_cmp_spec() -> bool {
        true
    }

    open spec fn partial_cmp_spec(&self, other: &SemVer) -> Option<Ordering> {
        Some(version_order(self@, other@))
    }
}

/// The marker of a release candidate, `rc`.
pub open spec fn rc_marker() -> Seq<char> {
    seq!['r', 'c']
}

/// The marker of a build for League of Legends, `LoL`.
pub open spec fn lol_marker() -> Seq<char> {
    seq!['L', 'o', 'L']
}

/// The marker of a fork with fixes of its own, `MF`.
pub open spec fn mf_marker() -> Seq<char> {
    seq!['M', 'F']
}

/// The marker that a tag carries: the first of `rc`, `LoL` and `MF`, in this
/// order, that stands anywhere in the tag.
pub open spec fn marker_of(tag: Seq<char>) -> Option<Seq<char>> {
    if contains(tag, rc_marker()) {
        Some(rc_marker())
    } else if contains(tag, lol_marker()) {
        Some(lol_marker())
    } else if contains(tag, mf_marker()) {
        Some(mf_marker())
    } else {
        None
    }
}

/// Run `k` is not the first run, and its digits follow the marker `rc`
/// somewhere in the tag.
pub open spec fn names_release_candidate(tag: Seq<char>, runs: Seq<RunView>, k: int) -> bool {
    1 <= k < runs.len() && contains(tag, rc_marker() + runs[k].text)
}

/// Run `k` is the first one that names the release candidate.
pub open spec fn is_rc_match(tag: Seq<char>, runs: Seq<RunView>, k: int) -> bool {
    &&& names_release_candidate(tag, runs, k)
    &&& forall|j: int| 1 <= j < k ==> !names_release_candidate(tag, runs, j)
}

/// The index of the run that holds the number of the release candidate.
pub open spec fn rc_match(tag: Seq<char>, runs: Seq<RunView>) -> Option<int> {
    if exists|k: int| is_rc_match(tag, runs, k) {
        Some(choose|k: int| is_rc_match(tag, runs, k))
    } else {
        None
    }
}

/// The test that keeps every run but the one that stands at `start..end`.
pub open spec fn stands_elsewhere(start: int, end: int) -> spec_fn(RunView) -> bool {
    |run: RunView| !(run.start == start && run.end == end)
}

/// `runs` without the run that stands at `start..end`.
pub open spec fn without_span(runs: Seq<RunView>, start: int, end: int) -> Seq<RunView> {
    runs.filter(stands_elsewhere(start, end))
}

/// Every run is a numeral for a number from 0 to 255.
pub open spec fn all_fit_u8(runs: Seq<RunView>) -> bool {
    forall|i: int| 0 <= i < runs.len() ==> fits_u8(#[trigger] runs[i].text)
}

/// The number of run `i`, and zero where there is no such run.
pub open spec fn component(runs: Seq<RunView>, i: int) -> int {
    if 0 <= i < runs.len() {
        decimal_value(runs[i].text)
    } else {
        0
    }
}

/// The version whose numbers are the first three of `runs`.
pub open spec fn numbered(runs: Seq<RunView>, identifier: Option<Seq<char>>) -> SemVerView {
    SemVerView {
        major: component(runs, 0),
        minor: component(runs, 1),
        patch: component(runs, 2),
        identifier,
    }
}

/// The version that the runs give where each is a numeral for a number from
/// 0 to 255, and the failure where one is not.
pub open spec fn numbers_outcome(runs: Seq<RunView>, identifier: Option<Seq<char>>) -> Result<
    SemVerView,
    TagParseError,
> {
    if all_fit_u8(runs) {
        Ok(numbered(runs, identifier))
    } else {
        Err(TagParseError::ComponentOutOfRange)
    }
}

/// How a tag with the given runs of digits is read.
///
/// A tag that holds `rc` must have a run, behind its first, whose digits
/// follow `rc` in the tag; the first such run is set aside and names the
/// release candidate, and the other runs give the numbers. A tag without `rc`
/// gives its numbers from all runs, and carries the marker that it holds.
pub open spec fn parse_outcome(tag: Seq<char>, runs: Seq<RunView>) -> Result<
    SemVerView,
    TagParseError,
> {
    if contains(tag, rc_marker()) {
        match rc_match(tag, runs) {
            Some(k) => numbers_outcome(
                without_span(runs, runs[k].start, runs[k].end),
                Some(rc_marker() + runs[k].text),
            ),
            None => Err(TagParseError::UnmatchedReleaseCandidate),
        }
    } else {
        numbers_outcome(runs, marker_of(tag))
    }
}

/// The canonical text of a version: the three numbers with dots between
/// them, then a hyphen and the identifier where there is one.
pub open spec fn canonical_text(version: SemVerView) -> Seq<char> {
    let numbers = decimal_text(version.major as nat) + seq!['.'] + decimal_text(
        version.minor as nat,
    ) + seq!['.'] + decimal_text(version.patch as nat);
    match version.identifier {
        Some(identifier) => numbers + seq!['-'] + identifier,
        None => numbers,
    }
}

/// An outcome of reading a tag says what `expected` says: the same version,
/// or the same failure.
pub open spec fn agrees(
    outcome: Result<SemVer, TagParseError>,
    expected: Result<SemVerView, TagParseError>,
) -> bool {
    match (outcome, expected) {
        (Ok(version), Ok(view)) => version@ == view,
        (Err(error), Err(failure)) => error == failure,
        _ => false,
    }
}

/// One run that names the release candidate first is the match.
pub proof fn lemma_rc_match_is(tag: Seq<char>, runs: Seq<RunView>, k: int)
    requires
        is_rc_match(tag, runs, k),
    ensures
        rc_match(tag, runs) == Some(k),
{
    let chosen = choose|k: int| is_rc_match(tag, runs, k);
    assert(is_rc_match(tag, runs, chosen));
    if chosen < k {
        assert(!names_release_candidate(tag, runs, chosen));
    } else if k < chosen {
        assert(!names_release_candidate(tag, runs, k));
    }
}

impl SemVer {
    /// The version with the given numbers and identifier.
    pub fn new(major: u8, minor: u8, patch: u8, identifier: Option<String>) -> (semver: SemVer)
        ensures
            semver@ == (SemVerView {
                major: major as int,
                minor: minor as int,
                patch: patch as int,
                identifier: text_of(identifier),
            }),
    {
        SemVer { major, minor, patch, identifier }
    }

    /// The identifier, where the version has one.
    pub fn identifier(&self) -> (identifier: &Option<String>)
        ensures
            text_of(*identifier) == self@.identifier,
    {
        &self.identifier
    }

    /// The first number.
    pub fn major(&self) -> (major: u8)
        ensures
            major == self@.major,
    {
        self.major
    }

    /// The second number.
    pub fn minor(&self) -> (minor: u8)
        ensures
            minor == self@.minor,
    {
        self.minor
    }

    /// The third number.
    pub fn patch(&self) -> (patch: u8)
        ensures
            patch == self@.patch,
    {
        self.patch
    }

    /// Whether this version comes before `other`.
    pub fn precedes(&self, other: &SemVer) -> (before: bool)
        ensures
            before == version_lt(self@, other@),
    {
        if self.major != other.major {
            return self.major < other.major;
        }
        if self.minor != other.minor {
            return self.minor < other.minor;
        }
        if self.patch != other.patch {
            return self.patch < other.patch;
        }
        match (&self.identifier, &other.identifier) {
            (None, Some(_)) => true,
            (Some(mine), Some(theirs)) => {
                let mine_chars = chars_of(mine.as_str());
                let their_chars = chars_of(theirs.as_str());
                text_precedes(&mine_chars, &their_chars)
            },
            _ => false,
        }
    }

    /// The canonical text of the version, such as `6.16.3-LoL`.
    pub fn str(&self) -> (text: String)
        ensures
            text@ == canonical_text(self@),
    {
        proof {
            reveal_strlit(".");
            reveal_strlit("-");
        }
        let mut text = u8_text(self.major);
        text.append(".");
        text.append(u8_text(self.minor).as_str());
        text.append(".");
        text.append(u8_text(self.patch).as_str());
        match &self.identifier {
            Some(identifier) => {
                text.append("-");
                text.append(identifier.as_str());
            },
            None => {},
        }
        assert(text@ =~= canonical_text(self@));
        text
    }

    /// The version whose numbers are the first three of `captures`, without
    /// an identifier; fewer than three runs leave the missing numbers at
    /// zero. Fails where a run is no numeral for a number from 0 to 255.
    pub fn create_semver_from_regex(captures: &Vec<NumberRun>) -> (outcome: Result<
        SemVer,
        TagParseError,
    >)
        ensures
            agrees(outcome, numbers_outcome(run_views(captures@), None)),
    {
        let ghost runs = run_views(captures@);
        let mut numbers: Vec<u8> = Vec::with_capacity(3);
        let mut i: usize = 0;
        while i < captures.len()
            invariant
                i <= captures.len(),
                runs == run_views(captures@),
                numbers.len() == i,
                forall|j: int| 0 <= j < i ==> fits_u8(#[trigger] runs[j].text),
                forall|j: int| 0 <= j < i ==> numbers@[j] == decimal_value(runs[j].text),
            decreases captures.len() - i,
        {
            let digits = chars_of(captures[i].text.as_str());
            match parse_u8(&digits) {
                Some(number) => numbers.push(number),
                None => {
                    assert(!fits_u8(runs[i as int].text));
                    return Err(TagParseError::ComponentOutOfRange);
                },
            }
            i += 1;
        }
        while numbers.len() < 3
            invariant
                captures.len() <= numbers.len(),
                runs == run_views(captures@),
                forall|j: int| 0 <= j < numbers.len() ==> numbers@[j] == component(runs, j),
            decreases 3 - numbers.len(),
        {
            numbers.push(0);
        }
        Ok(SemVer::new(numbers[0], numbers[1], numbers[2], None))
    }

    /// The run whose digits name the release candidate: the first run behind
    /// the first one whose digits follow `rc` somewhere in the tag. The first
    /// run is passed over, for it may hold the same number.
    pub fn get_rc_match(git_tag: &str, number_captures: &Vec<NumberRun>) -> (found: Option<usize>)
        ensures
            found matches Some(k) ==> rc_match(git_tag@, run_views(number_captures@)) == Some(
                k as int,
            ),
            found is None ==> rc_match(git_tag@, run_views(number_captures@)) is None,
    {
        let ghost runs = run_views(number_captures@);
        let tag_chars = chars_of(git_tag);
        let mut i: usize = 1;
        while i < number_captures.len()
            invariant
                1 <= i,
                tag_chars@ == git_tag@,
                runs == run_views(number_captures@),
                forall|j: int| 1 <= j < i ==> !names_release_candidate(git_tag@, runs, j),
            decreases number_captures.len() - i,
        {
            let mut rc_query = chars_of("rc");
            let mut version_number = chars_of(number_captures[i].text.as_str());
            rc_query.append(&mut version_number);
            proof {
                reveal_strlit("rc");
                assert(rc_query@ =~= rc_marker() + runs[i as int].text);
            }
            if contains_text(&tag_chars, &rc_query) {
                proof {
                    lemma_rc_match_is(git_tag@, runs, i as int);
                }
                return Some(i);
            }
            i += 1;
        }
        proof {
            assert forall|k: int| !is_rc_match(git_tag@, runs, k) by {
                if names_release_candidate(git_tag@, runs, k) {
                    assert(k >= i);
                }
            }
        }
        None
    }

    /// The runs but the one that stands at `start..end`, in their order.
    pub fn remove_span(runs: Vec<NumberRun>, start: usize, end: usize) -> (rest: Vec<NumberRun>)
        ensures
            run_views(rest@) == without_span(run_views(runs@), start as int, end as int),
    {
        let ghost all = run_views(runs@);
        let mut rest: Vec<NumberRun> = Vec::new();
        for run in it: runs
            invariant
                all == run_views(it.seq()),
                run_views(rest@) == without_span(
                    all.take(it.index() as int),
                    start as int,
                    end as int,
                ),
        {
            let ghost before = rest@;
            let ghost seen = all.take(it.index() + 1);
            let ghost keep = stands_elsewhere(start as int, end as int);
            proof {
                reveal(Seq::filter);
                assert(seen.drop_last() =~= all.take(it.index() as int));
                assert(seen.last() == run@);
                assert(keep(run@) == !(run.start == start && run.end == end));
                assert(seen.filter(keep) == if keep(run@) {
                    seen.drop_last().filter(keep).push(run@)
                } else {
                    seen.drop_last().filter(keep)
                });
            }
            if !(run.start == start && run.end == end) {
                rest.push(run);
                assert(run_views(rest@) =~= run_views(before).push(run@));
            }
        }
        assert(all.take(all.len() as int) =~= all);
        rest
    }

    /// Reads the tag as a version, given the runs of digits that were found
    /// in it.
    pub fn parse_number_runs(git_tag: &str, runs: Vec<NumberRun>) -> (outcome: Result<
        SemVer,
        TagParseError,
    >)
        ensures
            agrees(outcome, parse_outcome(git_tag@, run_views(runs@))),
    {
        let ghost views = run_views(runs@);
        let tag_chars = chars_of(git_tag);
        let rc = chars_of("rc");
        proof {
            reveal_strlit("rc");
            reveal_strlit("LoL");
            reveal_strlit("MF");
            assert(rc@ =~= rc_marker());
        }
        if contains_text(&tag_chars, &rc) {
            match SemVer::get_rc_match(git_tag, &runs) {
                Some(k) => {
                    let identifier = String::from_str("rc").concat(runs[k].text.as_str());
                    assert(identifier@ =~= rc_marker() + views[k as int].text);
                    let start = runs[k].start;
                    let end = runs[k].end;
                    let captures_without_rc = SemVer::remove_span(runs, start, end);
                    match SemVer::create_semver_from_regex(&captures_without_rc) {
                        Ok(mut semver) => {
                            semver.identifier = Some(identifier);
                            Ok(semver)
                        },
                        Err(error) => Err(error),
                    }
                },
                None => Err(TagParseError::UnmatchedReleaseCandidate),
            }
        } else {
            match SemVer::create_semver_from_regex(&runs) {
                Ok(mut semver) => {
                    let lol = chars_of("LoL");
                    let mf = chars_of("MF");
                    assert(lol@ =~= lol_marker());
                    assert(mf@ =~= mf_marker());
                    if contains_text(&tag_chars, &lol) {
                        semver.identifier = Some(String::from_str("LoL"));
                    } else if contains_text(&tag_chars, &mf) {
                        semver.identifier = Some(String::from_str("MF"));
                    }
                    Ok(semver)
                },
                Err(error) => Err(error),
            }
        }
    }

    /// Reads a tag as a version. The tag must be one that can be read.
    pub fn from_git_tag(git_tag: &str) -> (semver: SemVer)
        requires
            parse_outcome(git_tag@, number_runs(git_tag@)) is Ok,
        ensures
            Ok::<SemVerView, TagParseError>(semver@) == parse_outcome(
                git_tag@,
                number_runs(git_tag@),
            ),
            ascii_runs_are_blocks(git_tag@),
    {
        let number_captures = find_number_runs(git_tag);
        SemVer::parse_number_runs(git_tag, number_captures).unwrap()
    }
}

} // verus!
