//! The runs of digits in a tag, each with the place where it stands.

use crate::decimal::is_digit;
use regex::Regex;
use vstd::prelude::*;

verus! {

/// One run of digits found in a tag: the byte offsets at which it starts and
/// ends, and its text.
pub struct NumberRun {
    pub start: usize,
    pub end: usize,
    pub text: String,
}

/// What a `NumberRun` stands for.
pub struct RunView {
    pub start: int,
    pub end: int,
    pub text: Seq<char>,
}

impl View for NumberRun {
    type V = RunView;

    open spec fn view(&self) -> RunView {
        RunView { start: self.start as int, end: self.end as int, text: self.text@ }
    }
}

impl NumberRun {
    /// A run with the given text that stands at `start..end`.
    pub fn new(start: usize, end: usize, text: String) -> (run: NumberRun)
        ensures
            run@ == (RunView { start: start as int, end: end as int, text: text@ }),
    {
        NumberRun { start, end, text }
    }
}

/// The views of a list of runs, in order.
pub open spec fn run_views(runs: Seq<NumberRun>) -> Seq<RunView> {
    Seq::new(runs.len(), |i: int| runs[i]@)
}

/// The runs of digits of `tag`, from left to right: what the pattern `(\d+)`
/// matches in it, one match after the other.
pub uninterp spec fn number_runs(tag: Seq<char>) -> Seq<RunView>;

/// Every character of `text` is an ASCII character.
pub open spec fn all_ascii(text: Seq<char>) -> bool {
    forall|i: int| 0 <= i < text.len() ==> (#[trigger] text[i]) as int <= 127
}

/// `runs` are the maximal blocks of ASCII digits of `tag`, from left to right:
/// each run is a non-empty block of `tag` and holds its text, two runs are
/// apart by at least one character, and a character of `tag` is a digit just
/// when it lies in a run.
pub open spec fn marks_digit_blocks(tag: Seq<char>, runs: Seq<RunView>) -> bool {
    &&& forall|i: int|
        0 <= i < runs.len() ==> {
            &&& 0 <= (#[trigger] runs[i]).start < runs[i].end <= tag.len()
            &&& runs[i].text == tag.subrange(runs[i].start, runs[i].end)
        }
    &&& forall|i: int, j: int|
        0 <= i < j < runs.len() ==> (#[trigger] runs[i]).end < (#[trigger] runs[j]).start
    &&& forall|k: int|
        0 <= k < tag.len() ==> (is_digit(#[trigger] tag[k]) <==> lies_in_run(runs, k))
}

/// Of a tag that holds ASCII characters alone, the runs of digits are known:
/// they are its maximal blocks of ASCII digits.
pub open spec fn ascii_runs_are_blocks(tag: Seq<char>) -> bool {
    all_ascii(tag) ==> marks_digit_blocks(tag, number_runs(tag))
}

/// Position `k` lies in one of `runs`.
pub open spec fn lies_in_run(runs: Seq<RunView>, k: int) -> bool {
    exists|i: int| 0 <= i < runs.len() && (#[trigger] runs[i]).start <= k < runs[i].end
}

/// A run holds digits alone, and no digit stands directly before or behind
/// it.
pub proof fn lemma_run_is_block(tag: Seq<char>, runs: Seq<RunView>, i: int)
    requires
        marks_digit_blocks(tag, runs),
        0 <= i < runs.len(),
    ensures
        forall|k: int| runs[i].start <= k < runs[i].end ==> is_digit(#[trigger] tag[k]),
        runs[i].start == 0 || !is_digit(tag[runs[i].start - 1]),
        runs[i].end == tag.len() || !is_digit(tag[runs[i].end]),
{
    let run = runs[i];
    assert forall|k: int| run.start <= k < run.end implies is_digit(#[trigger] tag[k]) by {
        assert(lies_in_run(runs, k));
    }
    if run.start > 0 && is_digit(tag[run.start - 1]) {
        assert(lies_in_run(runs, run.start - 1));
        let other = choose|j: int|
            0 <= j < runs.len() && (#[trigger] runs[j]).start <= run.start - 1 < runs[j].end;
        assert(other != i);
    }
    if run.end < tag.len() && is_digit(tag[run.end]) {
        assert(lies_in_run(runs, run.end));
        let other = choose|j: int|
            0 <= j < runs.len() && (#[trigger] runs[j]).start <= run.end < runs[j].end;
        assert(other != i);
    }
}

/// Run `i` stands at `start..end`.
pub open spec fn stands_at(runs: Seq<RunView>, i: int, start: int, end: int) -> bool {
    0 <= i < runs.len() && runs[i].start == start && runs[i].end == end
}

/// A block of digits with no digit directly before or behind it is a run.
pub proof fn lemma_block_is_run(tag: Seq<char>, runs: Seq<RunView>, start: int, end: int)
    requires
        marks_digit_blocks(tag, runs),
        0 <= start < end <= tag.len(),
        forall|k: int| start <= k < end ==> is_digit(#[trigger] tag[k]),
        start == 0 || !is_digit(tag[start - 1]),
        end == tag.len() || !is_digit(tag[end]),
    ensures
        exists|i: int| stands_at(runs, i, start, end),
{
    assert(is_digit(tag[start]));
    assert(lies_in_run(runs, start));
    let i = choose|i: int| 0 <= i < runs.len() && (#[trigger] runs[i]).start <= start < runs[i].end;
    lemma_run_is_block(tag, runs, i);
    if runs[i].start < start {
        assert(is_digit(tag[start - 1]));
    }
    if runs[i].end > end {
        assert(is_digit(tag[end]));
    }
    if runs[i].end < end {
        assert(is_digit(tag[runs[i].end]));
    }
    assert(stands_at(runs, i, start, end));
}

/// Two lists of runs that both mark the blocks of digits of one tag hold the
/// same run at every place of the first.
pub proof fn lemma_runs_agree_at(tag: Seq<char>, runs: Seq<RunView>, others: Seq<RunView>, i: int)
    requires
        marks_digit_blocks(tag, runs),
        marks_digit_blocks(tag, others),
        0 <= i < runs.len(),
    ensures
        i < others.len(),
        runs[i] == others[i],
    decreases i,
{
    lemma_run_is_block(tag, runs, i);
    lemma_block_is_run(tag, others, runs[i].start, runs[i].end);
    let j = choose|j: int| stands_at(others, j, runs[i].start, runs[i].end);
    if j < i {
        lemma_runs_agree_at(tag, runs, others, j);
    } else if j > i {
        lemma_run_is_block(tag, others, i);
        lemma_block_is_run(tag, runs, others[i].start, others[i].end);
        let back = choose|k: int| stands_at(runs, k, others[i].start, others[i].end);
        assert(back < i) by {
            if back > i {
                assert(runs[i].end < runs[back].start);
            }
        }
        lemma_runs_agree_at(tag, runs, others, back);
    }
    assert(j == i);
}

/// The blocks of digits of a tag are marked by one list of runs alone.
pub proof fn lemma_runs_unique(tag: Seq<char>, runs: Seq<RunView>, others: Seq<RunView>)
    requires
        marks_digit_blocks(tag, runs),
        marks_digit_blocks(tag, others),
    ensures
        runs == others,
{
    if runs.len() > 0 {
        lemma_runs_agree_at(tag, runs, others, runs.len() - 1);
    }
    if others.len() > 0 {
        lemma_runs_agree_at(tag, others, runs, others.len() - 1);
    }
    assert forall|i: int| 0 <= i < runs.len() implies runs[i] == others[i] by {
        lemma_runs_agree_at(tag, runs, others, i);
    }
    assert(runs =~= others);
}

/// Finds the runs of digits of `tag`: compiles the pattern `(\d+)` with
/// `regex::Regex::new`, walks its matches with `regex::Regex::captures_iter`,
/// takes of each the first group with `regex::Captures::get`, and hands out
/// the offsets `regex::Match::start` and `regex::Match::end` and the text
/// `regex::Match::as_str`.
///
/// Trusted: the result is named `number_runs(tag@)`. Of a tag of ASCII
/// characters alone, where a byte offset is the index of a character, the
/// contract adds what the pattern means there: `\d` matches the ten ASCII
/// digits and no other ASCII character, `+` takes as many as follow, and the
/// matches come from left to right without overlap.
#[verifier::external_body]
pub(crate) fn find_number_runs(tag: &str) -> (runs: Vec<NumberRun>)
    ensures
        run_views(runs@) == number_runs(tag@),
        all_ascii(tag@) ==> marks_digit_blocks(tag@, run_views(runs@)),
{
    let numbers = Regex::new(r"(\d+)").unwrap();
    numbers
        .captures_iter(tag)
        .map(|capture| {
            let first_group = capture.get(1).unwrap();
            NumberRun {
                start: first_group.start(),
                end: first_group.end(),
                text: first_group.as_str().to_owned(),
            }
        })
        .collect()
}

} // verus!
