//! The canonical text of a version read as a tag again.

use crate::decimal::{
    all_digits, decimal_text, decimal_value, fits_u8, is_digit, lemma_decimal_text_denotes,
    lemma_value_nonnegative,
};
use crate::error::TagParseError;
use crate::number_runs::{
    all_ascii, lemma_run_is_block, lemma_runs_unique, lies_in_run, marks_digit_blocks, RunView,
};
use crate::semver::{
    all_fit_u8, canonical_text, component, is_rc_match, lemma_rc_match_is, lol_marker,
    marker_of, mf_marker, names_release_candidate, numbered, numbers_outcome, parse_outcome,
    rc_marker, rc_match, stands_elsewhere, without_span, SemVerView,
};
use crate::text::{contains, occurs_at};
use vstd::prelude::*;

verus! {

/// `text` begins with `prefix`.
pub open spec fn starts_with(text: Seq<char>, prefix: Seq<char>) -> bool {
    prefix.len() <= text.len() && text.take(prefix.len() as int) == prefix
}

/// The identifier names a release candidate: `rc` and then digits.
pub open spec fn names_candidate(identifier: Seq<char>) -> bool {
    &&& identifier.len() > 2
    &&& identifier.take(2) == rc_marker()
    &&& all_digits(identifier.skip(2))
}

/// The version is one that a tag can be read as: each number is from 0 to
/// 255, and the identifier, where there is one, is `LoL`, `MF` or names a
/// release candidate.
pub open spec fn well_formed(version: SemVerView) -> bool {
    &&& 0 <= version.major <= 255
    &&& 0 <= version.minor <= 255
    &&& 0 <= version.patch <= 255
    &&& match version.identifier {
        Some(identifier) => identifier == lol_marker() || identifier == mf_marker()
            || names_candidate(identifier),
        None => true,
    }
}

/// The version names a release candidate whose number begins with the
/// numeral of the second or of the third number of the version. In the
/// canonical text of such a version that numeral follows `rc` too, and
/// stands before the number of the candidate.
pub open spec fn candidate_shadowed(version: SemVerView) -> bool {
    match version.identifier {
        Some(identifier) => names_candidate(identifier) && (starts_with(
            identifier.skip(2),
            decimal_text(version.minor as nat),
        ) || starts_with(identifier.skip(2), decimal_text(version.patch as nat))),
        None => false,
    }
}

/// The three runs of the numbers in the canonical text of a version.
pub open spec fn number_blocks(version: SemVerView) -> Seq<RunView> {
    let major = decimal_text(version.major as nat);
    let minor = decimal_text(version.minor as nat);
    let patch = decimal_text(version.patch as nat);
    seq![
        RunView { start: 0, end: major.len() as int, text: major },
        RunView {
            start: (major.len() + 1) as int,
            end: (major.len() + 1 + minor.len()) as int,
            text: minor,
        },
        RunView {
            start: (major.len() + minor.len() + 2) as int,
            end: (major.len() + minor.len() + 2 + patch.len()) as int,
            text: patch,
        },
    ]
}

/// The runs of digits in the canonical text of a version: those of the
/// three numbers and, behind them, that of the release candidate where the
/// identifier names one.
pub open spec fn canonical_blocks(version: SemVerView) -> Seq<RunView> {
    let numbers = number_blocks(version);
    match version.identifier {
        Some(identifier) => if names_candidate(identifier) {
            numbers.push(
                RunView {
                    start: numbers[2].end + 3,
                    end: numbers[2].end + 1 + identifier.len(),
                    text: identifier.skip(2),
                },
            )
        } else {
            numbers
        },
        None => numbers,
    }
}

/// Where each character of the canonical text of a version comes from.
proof fn lemma_canonical_layout(version: SemVerView)
    requires
        well_formed(version),
    ensures
        ({
            let text = canonical_text(version);
            let blocks = number_blocks(version);
            let major = blocks[0];
            let minor = blocks[1];
            let patch = blocks[2];
            &&& 0 < major.end
            &&& minor.start < minor.end
            &&& patch.start < patch.end
            &&& forall|k: int| 0 <= k < major.end ==> #[trigger] text[k] == major.text[k]
            &&& text[major.end] == '.'
            &&& forall|k: int|
                minor.start <= k < minor.end ==> #[trigger] text[k] == minor.text[k - minor.start]
            &&& text[minor.end] == '.'
            &&& forall|k: int|
                patch.start <= k < patch.end ==> #[trigger] text[k] == patch.text[k - patch.start]
            &&& all_digits(major.text) && all_digits(minor.text) && all_digits(patch.text)
            &&& decimal_value(major.text) == version.major
            &&& decimal_value(minor.text) == version.minor
            &&& decimal_value(patch.text) == version.patch
            &&& match version.identifier {
                Some(identifier) => {
                    &&& text.len() == patch.end + 1 + identifier.len()
                    &&& text[patch.end] == '-'
                    &&& forall|k: int|
                        patch.end < k < text.len() ==> #[trigger] text[k] == identifier[k
                            - patch.end - 1]
                },
                None => text.len() == patch.end,
            }
        }),
{
    lemma_decimal_text_denotes(version.major as nat);
    lemma_decimal_text_denotes(version.minor as nat);
    lemma_decimal_text_denotes(version.patch as nat);
}

/// The runs of digits in the canonical text of a version are its
/// canonical blocks.
proof fn lemma_canonical_blocks_mark(version: SemVerView)
    requires
        well_formed(version),
    ensures
        marks_digit_blocks(canonical_text(version), canonical_blocks(version)),
{
    lemma_canonical_layout(version);
    let text = canonical_text(version);
    let numbers = number_blocks(version);
    let blocks = canonical_blocks(version);
    let major = numbers[0];
    let minor = numbers[1];
    let patch = numbers[2];
    assert(major.text =~= text.subrange(major.start, major.end));
    assert(minor.text =~= text.subrange(minor.start, minor.end));
    assert(patch.text =~= text.subrange(patch.start, patch.end));
    assert(blocks[0] == major && blocks[1] == minor && blocks[2] == patch);
    match version.identifier {
        Some(identifier) => {
            if names_candidate(identifier) {
                let candidate = blocks[3];
                assert(identifier.take(2)[0] == 'r' && identifier.take(2)[1] == 'c');
                assert(candidate.text =~= text.subrange(candidate.start, candidate.end));
                assert forall|k: int| 0 <= k < text.len() implies (is_digit(#[trigger] text[k])
                    <==> lies_in_run(blocks, k)) by {
                    if k < major.end {
                        assert(major.start <= k < blocks[0].end);
                    } else if minor.start <= k < minor.end {
                        assert(blocks[1].start <= k < blocks[1].end);
                    } else if patch.start <= k < patch.end {
                        assert(blocks[2].start <= k < blocks[2].end);
                    } else if candidate.start <= k {
                        assert(text[k] == identifier.skip(2)[k - candidate.start]);
                        assert(blocks[3].start <= k < blocks[3].end);
                    }
                }
            } else {
                assert(blocks == numbers);
                assert forall|k: int| 0 <= k < text.len() implies (is_digit(#[trigger] text[k])
                    <==> lies_in_run(blocks, k)) by {
                    if k < major.end {
                        assert(major.start <= k < blocks[0].end);
                    } else if minor.start <= k < minor.end {
                        assert(blocks[1].start <= k < blocks[1].end);
                    } else if patch.start <= k < patch.end {
                        assert(blocks[2].start <= k < blocks[2].end);
                    }
                }
            }
        },
        None => {
            assert forall|k: int| 0 <= k < text.len() implies (is_digit(#[trigger] text[k])
                <==> lies_in_run(blocks, k)) by {
                if k < major.end {
                    assert(major.start <= k < blocks[0].end);
                } else if minor.start <= k < minor.end {
                    assert(blocks[1].start <= k < blocks[1].end);
                } else if patch.start <= k < patch.end {
                    assert(blocks[2].start <= k < blocks[2].end);
                }
            }
        },
    }
}

/// In the canonical text of a version that names a release candidate, a
/// numeral that follows `rc` begins the number of the candidate.
proof fn lemma_follows_rc(version: SemVerView, numeral: Seq<char>)
    requires
        well_formed(version),
        version.identifier is Some,
        names_candidate(version.identifier->0),
        contains(canonical_text(version), rc_marker() + numeral),
    ensures
        starts_with(version.identifier->0.skip(2), numeral),
{
    lemma_canonical_layout(version);
    let text = canonical_text(version);
    let identifier = version.identifier->0;
    let number = identifier.skip(2);
    let patch = number_blocks(version)[2];
    let query = rc_marker() + numeral;
    let at = choose|at: int| occurs_at(text, query, at);
    let found = text.subrange(at, at + query.len());
    assert(found[0] == 'r');
    assert(identifier.take(2)[0] == 'r' && identifier.take(2)[1] == 'c');
    assert(at == patch.end + 1) by {
        if at > patch.end + 1 {
            if at > patch.end + 2 {
                assert(is_digit(number[at - patch.end - 3]));
            }
        }
    }
    assert forall|j: int| 0 <= j < numeral.len() implies number[j] == numeral[j] by {
        assert(found[2 + j] == query[2 + j]);
    }
    assert(number.take(numeral.len() as int) =~= numeral);
}

/// The three numerals of the canonical text give the numbers of the
/// version.
proof fn lemma_numbers_read_back(version: SemVerView)
    requires
        well_formed(version),
    ensures
        numbers_outcome(number_blocks(version), version.identifier) == Ok::<
            SemVerView,
            TagParseError,
        >(version),
{
    lemma_canonical_layout(version);
    let numbers = number_blocks(version);
    assert(fits_u8(numbers[0].text));
    assert(fits_u8(numbers[1].text));
    assert(fits_u8(numbers[2].text));
    assert(all_fit_u8(numbers));
    assert(numbered(numbers, version.identifier) == version);
}

/// The canonical text of a version that names no release candidate holds no
/// `rc`, and carries the marker that is the identifier of the version.
proof fn lemma_marker_reads_back(version: SemVerView)
    requires
        well_formed(version),
        version.identifier matches Some(identifier) ==> !names_candidate(identifier),
    ensures
        !contains(canonical_text(version), rc_marker()),
        marker_of(canonical_text(version)) == version.identifier,
{
    lemma_canonical_layout(version);
    let text = canonical_text(version);
    let patch = number_blocks(version)[2];
    assert forall|at: int| !occurs_at(text, rc_marker(), at) by {
        if occurs_at(text, rc_marker(), at) {
            assert(text.subrange(at, at + 2)[0] == 'r');
        }
    }
    if version.identifier == Some(lol_marker()) {
        assert(text.subrange(patch.end + 1, patch.end + 4) =~= lol_marker());
        assert(occurs_at(text, lol_marker(), patch.end + 1));
    } else {
        assert forall|at: int| !occurs_at(text, lol_marker(), at) by {
            if occurs_at(text, lol_marker(), at) {
                assert(text.subrange(at, at + 3)[0] == 'L');
            }
        }
        if version.identifier == Some(mf_marker()) {
            assert(text.subrange(patch.end + 1, patch.end + 3) =~= mf_marker());
            assert(occurs_at(text, mf_marker(), patch.end + 1));
        } else {
            assert forall|at: int| !occurs_at(text, mf_marker(), at) by {
                if occurs_at(text, mf_marker(), at) {
                    assert(text.subrange(at, at + 2)[0] == 'M');
                }
            }
        }
    }
}

/// In the canonical text of a version that names a release candidate, the
/// identifier stands directly behind the hyphen.
proof fn lemma_candidate_stands_last(version: SemVerView)
    requires
        well_formed(version),
        version.identifier is Some,
        names_candidate(version.identifier->0),
    ensures
        ({
            let text = canonical_text(version);
            let blocks = canonical_blocks(version);
            let number = version.identifier->0.skip(2);
            &&& blocks.len() == 4
            &&& blocks[1].text == decimal_text(version.minor as nat)
            &&& blocks[2].text == decimal_text(version.patch as nat)
            &&& blocks[3].text == number
            &&& version.identifier->0 == rc_marker() + number
            &&& occurs_at(text, rc_marker(), blocks[2].end + 1)
            &&& occurs_at(text, rc_marker() + number, blocks[2].end + 1)
        }),
{
    lemma_canonical_layout(version);
    let text = canonical_text(version);
    let patch = number_blocks(version)[2];
    let identifier = version.identifier->0;
    let number = identifier.skip(2);
    assert(identifier.take(2)[0] == 'r' && identifier.take(2)[1] == 'c');
    assert(identifier =~= rc_marker() + number);
    assert(text.subrange(patch.end + 1, patch.end + 3) =~= rc_marker());
    assert(text.subrange(patch.end + 1, patch.end + 1 + identifier.len()) =~= rc_marker()
        + number);
}

/// Of four runs, the last is the one that names the release candidate where
/// its digits follow `rc` in the tag and those of the second and of the
/// third run do not.
proof fn lemma_last_of_four_matches(text: Seq<char>, blocks: Seq<RunView>)
    requires
        blocks.len() == 4,
        contains(text, rc_marker() + blocks[3].text),
        !contains(text, rc_marker() + blocks[1].text),
        !contains(text, rc_marker() + blocks[2].text),
    ensures
        rc_match(text, blocks) == Some(3int),
{
    assert(names_release_candidate(text, blocks, 3));
    assert(!names_release_candidate(text, blocks, 1));
    assert(!names_release_candidate(text, blocks, 2));
    assert(is_rc_match(text, blocks, 3));
    lemma_rc_match_is(text, blocks, 3);
}

/// In the canonical text of a version that names a release candidate, and
/// whose candidate number no numeral shadows, the last run of digits is the
/// one that names the candidate.
proof fn lemma_candidate_is_last_run(version: SemVerView)
    requires
        well_formed(version),
        version.identifier is Some,
        names_candidate(version.identifier->0),
        !candidate_shadowed(version),
    ensures
        contains(canonical_text(version), rc_marker()),
        rc_match(canonical_text(version), canonical_blocks(version)) == Some(3int),
        version.identifier->0 == rc_marker() + canonical_blocks(version)[3].text,
{
    lemma_candidate_stands_last(version);
    let text = canonical_text(version);
    let blocks = canonical_blocks(version);
    if contains(text, rc_marker() + decimal_text(version.minor as nat)) {
        lemma_follows_rc(version, decimal_text(version.minor as nat));
    }
    if contains(text, rc_marker() + decimal_text(version.patch as nat)) {
        lemma_follows_rc(version, decimal_text(version.patch as nat));
    }
    lemma_last_of_four_matches(text, blocks);
}

/// Without the run of the release candidate, the runs of the canonical text
/// are those of the three numbers.
proof fn lemma_numbers_remain(version: SemVerView)
    requires
        well_formed(version),
        version.identifier is Some,
        names_candidate(version.identifier->0),
    ensures
        without_span(
            canonical_blocks(version),
            canonical_blocks(version)[3].start,
            canonical_blocks(version)[3].end,
        ) == number_blocks(version),
{
    lemma_canonical_layout(version);
    let numbers = number_blocks(version);
    let blocks = canonical_blocks(version);
    let keep = stands_elsewhere(blocks[3].start, blocks[3].end);
    reveal_with_fuel(Seq::filter, 5);
    assert(blocks.drop_last() =~= numbers);
    assert(numbers.drop_last() =~= seq![numbers[0], numbers[1]]);
    assert(numbers.drop_last().drop_last() =~= seq![numbers[0]]);
    assert(numbers.drop_last().drop_last().drop_last() =~= Seq::<RunView>::empty());
    assert(keep(numbers[0]) && keep(numbers[1]) && keep(numbers[2]) && !keep(blocks[3]));
    assert(blocks.filter(keep) =~= numbers);
}

/// The canonical text of a well-formed version reads as that version again,
/// unless the version names a release candidate whose number begins with
/// the numeral of its second or third number.
///
/// `runs` are the runs of digits of the canonical text.
pub proof fn law_canonical_text_reads_back(version: SemVerView, runs: Seq<RunView>)
    requires
        well_formed(version),
        !candidate_shadowed(version),
        marks_digit_blocks(canonical_text(version), runs),
    ensures
        parse_outcome(canonical_text(version), runs) == Ok::<SemVerView, TagParseError>(version),
{
    lemma_canonical_blocks_mark(version);
    lemma_runs_unique(canonical_text(version), runs, canonical_blocks(version));
    lemma_numbers_read_back(version);
    if version.identifier is Some && names_candidate(version.identifier->0) {
        lemma_candidate_is_last_run(version);
        lemma_numbers_remain(version);
    } else {
        lemma_marker_reads_back(version);
    }
}

/// The numbers that runs of numerals give are from 0 to 255.
proof fn lemma_components_in_range(runs: Seq<RunView>, i: int)
    requires
        all_fit_u8(runs),
    ensures
        0 <= component(runs, i) <= 255,
{
    if 0 <= i < runs.len() {
        assert(fits_u8(runs[i].text));
        lemma_value_nonnegative(runs[i].text);
    }
}

/// What a tag is read as is a well-formed version, where the runs are the
/// blocks of digits of the tag.
pub proof fn law_read_version_is_well_formed(tag: Seq<char>, runs: Seq<RunView>)
    requires
        marks_digit_blocks(tag, runs),
        parse_outcome(tag, runs) is Ok,
    ensures
        well_formed(parse_outcome(tag, runs)->Ok_0),
{
    if contains(tag, rc_marker()) {
        let k = rc_match(tag, runs)->0;
        assert(is_rc_match(tag, runs, k));
        let rest = without_span(runs, runs[k].start, runs[k].end);
        lemma_components_in_range(rest, 0);
        lemma_components_in_range(rest, 1);
        lemma_components_in_range(rest, 2);
        lemma_run_is_block(tag, runs, k);
        let number = runs[k].text;
        let identifier = rc_marker() + number;
        assert(identifier.take(2) =~= rc_marker());
        assert(identifier.skip(2) =~= number);
        assert forall|i: int| 0 <= i < number.len() implies is_digit(#[trigger] number[i]) by {
            assert(number[i] == tag[runs[k].start + i]);
        }
    } else {
        lemma_components_in_range(runs, 0);
        lemma_components_in_range(runs, 1);
        lemma_components_in_range(runs, 2);
    }
}

/// Reading is idempotent: the canonical text of the version that a tag is
/// read as reads as the same version again. Left out are the tags whose
/// version names a release candidate with a number that begins with the
/// numeral of the second or third number of the version.
///
/// `runs` are the blocks of digits of the tag, and `canonical_runs` those of
/// the canonical text.
pub proof fn law_reading_is_idempotent(
    tag: Seq<char>,
    runs: Seq<RunView>,
    canonical_runs: Seq<RunView>,
)
    requires
        marks_digit_blocks(tag, runs),
        parse_outcome(tag, runs) is Ok,
        !candidate_shadowed(parse_outcome(tag, runs)->Ok_0),
        marks_digit_blocks(canonical_text(parse_outcome(tag, runs)->Ok_0), canonical_runs),
    ensures
        parse_outcome(canonical_text(parse_outcome(tag, runs)->Ok_0), canonical_runs)
            == parse_outcome(tag, runs),
{
    law_read_version_is_well_formed(tag, runs);
    law_canonical_text_reads_back(parse_outcome(tag, runs)->Ok_0, canonical_runs);
}

/// The canonical text of a well-formed version holds ASCII characters
/// alone.
pub proof fn lemma_canonical_text_is_ascii(version: SemVerView)
    requires
        well_formed(version),
    ensures
        all_ascii(canonical_text(version)),
{
    lemma_canonical_layout(version);
    let text = canonical_text(version);
    let numbers = number_blocks(version);
    assert forall|k: int| 0 <= k < text.len() implies (#[trigger] text[k]) as int <= 127 by {
        if k < numbers[0].end {
            assert(is_digit(numbers[0].text[k]));
        } else if numbers[1].start <= k < numbers[1].end {
            assert(is_digit(numbers[1].text[k - numbers[1].start]));
        } else if numbers[2].start <= k < numbers[2].end {
            assert(is_digit(numbers[2].text[k - numbers[2].start]));
        } else if k > numbers[2].end {
            let identifier = version.identifier->0;
            let at = k - numbers[2].end - 1;
            if names_candidate(identifier) {
                assert(identifier.take(2)[0] == 'r' && identifier.take(2)[1] == 'c');
                if at >= 2 {
                    assert(is_digit(identifier.skip(2)[at - 2]));
                }
            }
        }
    }
}

} // verus!
