//! The outcome of a test: the shape peers report it in, how the outcomes of two
//! peers fold into one, and the raw result the runner classifies.

use vstd::prelude::*;
use vstd::utf8::*;

use crate::json::{
    json_fields, opt_view, read_result_object, reads_as, result_object, result_object_is_a_line,
    write_result_object, ResultFields,
};
use crate::text::{
    blank, debug_quoted, debug_text, find_last_line, is_white, last_line, lemma_last_line_of, same,
    trim, trimmed, utf8_error_text, utf8_text,
};

verus! {

// ----- test outcomes -------------------------------------------------------------------

/// The outcome of one guest instance.
#[derive(Debug, Clone)]
pub enum TestOutcome {
    Pass,
    Fail(String),
    Skipped(String),
}

/// An outcome with its detail as characters.
pub enum OutcomeView {
    Pass,
    Fail(Seq<char>),
    Skipped(Seq<char>),
}

impl View for TestOutcome {
    type V = OutcomeView;

    open spec fn view(&self) -> OutcomeView {
        match *self {
            TestOutcome::Pass => OutcomeView::Pass,
            TestOutcome::Fail(detail) => OutcomeView::Fail(detail@),
            TestOutcome::Skipped(reason) => OutcomeView::Skipped(reason@),
        }
    }
}

/// An outcome or the text of an error chain, as characters.
pub open spec fn outcome_view(r: Result<TestOutcome, String>) -> Result<OutcomeView, Seq<char>> {
    match r {
        Ok(outcome) => Ok(outcome@),
        Err(error) => Err(error@),
    }
}

/// The `test-result` members that report an outcome.
pub open spec fn reported(outcome: OutcomeView) -> (Seq<char>, Option<Seq<char>>) {
    match outcome {
        OutcomeView::Pass => ("pass"@, None),
        OutcomeView::Fail(detail) => ("fail"@, Some(detail)),
        OutcomeView::Skipped(reason) => ("skipped"@, Some(reason)),
    }
}

impl TestOutcome {
    /// The `test-result` shape peer processes print and [`parse_outcome`] reads
    /// back: a tag and, for a failure or a skip, its detail.
    pub fn to_json(&self) -> (r: ResultFields)
        ensures
            r@ == (Some(reported(self@).0), reported(self@).1),
    {
        match self {
            TestOutcome::Pass => ResultFields { tag: Some("pass".to_owned()), val: None },
            TestOutcome::Fail(detail) => ResultFields {
                tag: Some("fail".to_owned()),
                val: Some(detail.clone()),
            },
            TestOutcome::Skipped(reason) => ResultFields {
                tag: Some("skipped".to_owned()),
                val: Some(reason.clone()),
            },
        }
    }

    /// The single line of JSON a peer process prints for this outcome. It holds no
    /// line break, begins and ends with a brace, and reads back as the members of
    /// [`TestOutcome::to_json`].
    pub fn to_json_line(&self) -> (r: String)
        ensures
            r@ == result_object(reported(self@).0, reported(self@).1),
            is_result_line(r@, self@),
    {
        proof {
            result_object_is_a_line(reported(self@).0, reported(self@).1);
        }
        match self {
            TestOutcome::Pass => write_result_object("pass", None),
            TestOutcome::Fail(detail) => write_result_object("fail", Some(detail.as_str())),
            TestOutcome::Skipped(reason) => write_result_object("skipped", Some(reason.as_str())),
        }
    }
}

/// Whether `line` is a single line of JSON that reports `outcome`.
pub open spec fn is_result_line(line: Seq<char>, outcome: OutcomeView) -> bool {
    &&& line.len() > 0
    &&& line[0] == '{'
    &&& line.last() == '}'
    &&& forall|i: int| 0 <= i < line.len() ==> #[trigger] line[i] != '\n'
    &&& reads_as(line, (Some(reported(outcome).0), reported(outcome).1))
}

/// The characters of `val`, or none.
pub open spec fn detail_or_empty(val: Option<Seq<char>>) -> Seq<char> {
    match val {
        Some(s) => s,
        None => Seq::empty(),
    }
}

/// The outcome a `test-result` reports, or what is wrong with it.
pub open spec fn outcome_of(fields: (Option<Seq<char>>, Option<Seq<char>>)) -> Result<
    OutcomeView,
    Seq<char>,
> {
    match fields.0 {
        None => Err("result missing tag"@),
        Some(tag) => if tag == "pass"@ {
            Ok(OutcomeView::Pass)
        } else if tag == "fail"@ {
            Ok(OutcomeView::Fail(detail_or_empty(fields.1)))
        } else if tag == "skipped"@ {
            Ok(OutcomeView::Skipped(detail_or_empty(fields.1)))
        } else {
            Err("unknown result tag "@ + debug_text(tag))
        },
    }
}

fn detail_of(val: &Option<String>) -> (r: String)
    ensures
        r@ == detail_or_empty(opt_view(*val)),
{
    match val {
        Some(s) => s.clone(),
        None => String::new(),
    }
}

/// Read a peer's `test-result`. A result without a string tag, or with an
/// unknown one, is an error; a missing detail is an empty one.
pub fn parse_outcome(value: &ResultFields) -> (r: Result<TestOutcome, String>)
    ensures
        outcome_view(r) == outcome_of(value@),
{
    match &value.tag {
        None => Err("result missing tag".to_owned()),
        Some(tag) => if same(tag.as_str(), "pass") {
            Ok(TestOutcome::Pass)
        } else if same(tag.as_str(), "fail") {
            Ok(TestOutcome::Fail(detail_of(&value.val)))
        } else if same(tag.as_str(), "skipped") {
            Ok(TestOutcome::Skipped(detail_of(&value.val)))
        } else {
            Err("unknown result tag ".to_owned().concat(debug_quoted(tag.as_str()).as_str()))
        },
    }
}

/// What a peer reports on its last line that is not blank, or the error chain.
pub open spec fn reported_in(text: Seq<char>) -> Result<OutcomeView, Seq<char>> {
    match last_line(text) {
        None => Err("no result line in output"@),
        Some(line) => match json_fields(trimmed(line)) {
            Err(error) => Err("parsing result line "@ + debug_text(line) + ": "@ + error),
            Ok(fields) => outcome_of(fields),
        },
    }
}

/// Read a peer's captured stdout: the last line that is not blank is its
/// single-line JSON `test-result`.
pub fn parse_result_line(text: &str) -> (r: Result<TestOutcome, String>)
    ensures
        outcome_view(r) == reported_in(text@),
{
    match find_last_line(text) {
        None => Err("no result line in output".to_owned()),
        Some(line) => match read_result_object(trim(line)) {
            Err(error) => Err(
                "parsing result line ".to_owned().concat(debug_quoted(line).as_str()).concat(
                    ": ",
                ).concat(error.as_str()),
            ),
            Ok(fields) => parse_outcome(&fields),
        },
    }
}

/// Reading back what [`TestOutcome::to_json`] wrote gives the outcome.
pub proof fn outcome_round_trips(outcome: OutcomeView)
    ensures
        outcome_of((Some(reported(outcome).0), reported(outcome).1)) == Ok::<
            OutcomeView,
            Seq<char>,
        >(outcome),
{
    reveal_strlit("pass");
    reveal_strlit("fail");
    reveal_strlit("skipped");
    assert("pass"@[0] == 'p');
    assert("fail"@[0] == 'f');
}

/// A peer's report is found whatever it printed on earlier lines and whatever
/// blank text follows.
pub proof fn result_line_is_found(
    noise: Seq<char>,
    line: Seq<char>,
    tail: Seq<char>,
    outcome: OutcomeView,
)
    requires
        is_result_line(line, outcome),
        noise.len() == 0 || noise.last() == '\n',
        blank(tail),
    ensures
        reported_in(noise + line + tail) == Ok::<OutcomeView, Seq<char>>(outcome),
{
    assert(!is_white('{'));
    assert(!is_white('}'));
    lemma_last_line_of(noise, line, tail);
    outcome_round_trips(outcome);
}

/// The one outcome of two: any failure loses, else any skip, else both passed.
pub open spec fn folded(offerer: OutcomeView, answerer: OutcomeView) -> OutcomeView {
    match (offerer, answerer) {
        (OutcomeView::Fail(a), OutcomeView::Fail(b)) => OutcomeView::Fail(
            "offerer: "@ + a + "; answerer: "@ + b,
        ),
        (OutcomeView::Fail(a), _) => OutcomeView::Fail("offerer: "@ + a),
        (_, OutcomeView::Fail(b)) => OutcomeView::Fail("answerer: "@ + b),
        (OutcomeView::Skipped(a), _) => OutcomeView::Skipped(a),
        (_, OutcomeView::Skipped(b)) => OutcomeView::Skipped(b),
        (OutcomeView::Pass, OutcomeView::Pass) => OutcomeView::Pass,
    }
}

/// Fold two per-instance outcomes into one: any fail loses, else any skip, else
/// pass. A failure names the side it came from.
pub fn fold_two(offerer: TestOutcome, answerer: TestOutcome) -> (r: TestOutcome)
    ensures
        r@ == folded(offerer@, answerer@),
{
    match (offerer, answerer) {
        (TestOutcome::Fail(a), TestOutcome::Fail(b)) => TestOutcome::Fail(
            "offerer: ".to_owned().concat(a.as_str()).concat("; answerer: ").concat(b.as_str()),
        ),
        (TestOutcome::Fail(a), _) => TestOutcome::Fail("offerer: ".to_owned().concat(a.as_str())),
        (_, TestOutcome::Fail(b)) => TestOutcome::Fail("answerer: ".to_owned().concat(b.as_str())),
        (TestOutcome::Skipped(a), _) => TestOutcome::Skipped(a),
        (_, TestOutcome::Skipped(b)) => TestOutcome::Skipped(b),
        (TestOutcome::Pass, TestOutcome::Pass) => TestOutcome::Pass,
    }
}

/// The fold passes exactly when both sides passed, and fails exactly when one
/// of them failed.
pub proof fn fold_is_worst(offerer: OutcomeView, answerer: OutcomeView)
    ensures
        folded(offerer, answerer) is Pass <==> offerer is Pass && answerer is Pass,
        folded(offerer, answerer) is Fail <==> offerer is Fail || answerer is Fail,
{
}

// ----- adapter result document ---------------------------------------------------------

/// The raw status vocabulary the runner consumes.
#[derive(Debug, Clone, Copy, PartialEq, Eq, Structural)]
pub enum RawStatus {
    Pass,
    Fail,
    Skip,
}

/// One raw per-test outcome.
#[derive(Debug, Clone)]
pub struct RawResult {
    pub test_id: String,
    pub status: RawStatus,
    pub detail: Option<String>,
}

/// The adapter result document.
#[derive(Debug, Clone)]
pub struct AdapterReport {
    pub target: String,
    pub environment: String,
    pub results: Vec<RawResult>,
}

impl View for RawResult {
    type V = (Seq<char>, RawStatus, Option<Seq<char>>);

    open spec fn view(&self) -> (Seq<char>, RawStatus, Option<Seq<char>>) {
        (self.test_id@, self.status, opt_view(self.detail))
    }
}

/// The raw result that records an outcome.
pub open spec fn raw_of(test_id: Seq<char>, outcome: OutcomeView) -> (
    Seq<char>,
    RawStatus,
    Option<Seq<char>>,
) {
    match outcome {
        OutcomeView::Pass => (test_id, RawStatus::Pass, None),
        OutcomeView::Skipped(reason) => (test_id, RawStatus::Skip, Some(reason)),
        OutcomeView::Fail(detail) => (test_id, RawStatus::Fail, Some(detail)),
    }
}

/// Convert a folded [`TestOutcome`] into the runner's raw result vocabulary.
pub fn outcome_to_raw(test_id: &str, outcome: TestOutcome) -> (r: RawResult)
    ensures
        r@ == raw_of(test_id@, outcome@),
{
    match outcome {
        TestOutcome::Pass => RawResult {
            test_id: test_id.to_owned(),
            status: RawStatus::Pass,
            detail: None,
        },
        TestOutcome::Skipped(reason) => RawResult {
            test_id: test_id.to_owned(),
            status: RawStatus::Skip,
            detail: Some(reason),
        },
        TestOutcome::Fail(detail) => RawResult {
            test_id: test_id.to_owned(),
            status: RawStatus::Fail,
            detail: Some(detail),
        },
    }
}

/// The file name of the result document with this stem.
pub fn report_file_name(file_stem: &str) -> (r: String)
    ensures
        r@ == file_stem@ + ".json"@,
{
    file_stem.to_owned().concat(".json")
}

// ----- one attempt ---------------------------------------------------------------------

/// How the single attempt at a test ended.
pub enum AttemptEnd {
    /// The attempt produced an outcome.
    Finished(TestOutcome),
    /// The adapter failed: the text of its error chain.
    Errored(String),
    /// The attempt outlived the hang guard.
    TimedOut,
}

/// The outcome an attempt's end counts as.
pub open spec fn attempt_outcome(end: AttemptEnd) -> OutcomeView {
    match end {
        AttemptEnd::Finished(outcome) => outcome@,
        AttemptEnd::Errored(error) => OutcomeView::Fail("adapter error: "@ + error@),
        AttemptEnd::TimedOut => OutcomeView::Fail("attempt timed-out"@),
    }
}

/// Record a test's single attempt: an adapter error or a tripped hang guard is a
/// failure, and there are no retries.
pub fn conclude_test(test_id: &str, end: AttemptEnd) -> (r: RawResult)
    ensures
        r@ == raw_of(test_id@, attempt_outcome(end)),
{
    let outcome = match end {
        AttemptEnd::Finished(outcome) => outcome,
        AttemptEnd::Errored(error) => TestOutcome::Fail(
            "adapter error: ".to_owned().concat(error.as_str()),
        ),
        AttemptEnd::TimedOut => TestOutcome::Fail("attempt timed-out".to_owned()),
    };
    outcome_to_raw(test_id, outcome)
}

// ----- peer processes ------------------------------------------------------------------

/// What a peer process that ended reports: its result line, unless it failed or
/// printed something other than text.
pub open spec fn peer_report(
    label: Seq<char>,
    success: bool,
    status: Seq<char>,
    stdout: Seq<u8>,
) -> Result<OutcomeView, Seq<char>> {
    if !success {
        Err(label + " exited with "@ + status)
    } else if !valid_utf8(stdout) {
        Err(label + " stdout not UTF-8: "@ + utf8_error_text(stdout))
    } else {
        match reported_in(decode_utf8(stdout)) {
            Ok(outcome) => Ok(outcome),
            Err(error) => Err("reading "@ + label + " result: "@ + error),
        }
    }
}

/// Read the outcome of a peer process from how it exited and what it printed.
pub fn peer_outcome(label: &str, success: bool, status: &str, stdout: Vec<u8>) -> (r: Result<
    TestOutcome,
    String,
>)
    ensures
        outcome_view(r) == peer_report(label@, success, status@, stdout@),
{
    if !success {
        return Err(label.to_owned().concat(" exited with ").concat(status));
    }
    match utf8_text(stdout) {
        Err(error) => Err(
            label.to_owned().concat(" stdout not UTF-8: ").concat(error.as_str()),
        ),
        Ok(text) => match parse_result_line(text.as_str()) {
            Ok(outcome) => Ok(outcome),
            Err(error) => Err(
                "reading ".to_owned().concat(label).concat(" result: ").concat(error.as_str()),
            ),
        },
    }
}

// ----- laws ----------------------------------------------------------------------------

/// A raw result names its test and records its outcome without loss: the status tells the
/// three outcomes apart, and the detail is the outcome's own.
pub proof fn raw_result_records_the_outcome(
    test_id: Seq<char>,
    outcome: OutcomeView,
    other: OutcomeView,
)
    ensures
        raw_of(test_id, outcome).0 == test_id,
        raw_of(test_id, outcome).1 is Pass <==> outcome is Pass,
        raw_of(test_id, outcome).1 is Fail <==> outcome is Fail,
        raw_of(test_id, outcome).1 is Skip <==> outcome is Skipped,
        raw_of(test_id, outcome).2 == match outcome {
            OutcomeView::Pass => None,
            OutcomeView::Fail(detail) => Some(detail),
            OutcomeView::Skipped(reason) => Some(reason),
        },
        raw_of(test_id, outcome) == raw_of(test_id, other) ==> outcome == other,
{
}

/// A test passes, or is skipped, only by what its attempt came to: an adapter that fails and an
/// attempt that outlives the hang guard are failures.
pub proof fn attempt_passes_only_by_its_outcome(end: AttemptEnd)
    ensures
        attempt_outcome(end) is Pass <==> (end matches AttemptEnd::Finished(outcome) && outcome@
            is Pass),
        attempt_outcome(end) is Skipped <==> (end matches AttemptEnd::Finished(outcome) && outcome@
            is Skipped),
        end matches AttemptEnd::Finished(outcome) ==> attempt_outcome(end) == outcome@,
        end matches AttemptEnd::Errored(error) ==> (attempt_outcome(end) matches OutcomeView::Fail(
            detail,
        ) && detail.len() >= error@.len() && detail.skip(detail.len() - error@.len()) == error@),
        end is TimedOut ==> attempt_outcome(end) is Fail,
{
    if let AttemptEnd::Errored(error) = end {
        let detail = "adapter error: "@ + error@;
        assert(detail.skip(detail.len() - error@.len()) =~= error@);
    }
}

/// A result is read by its tag alone: each of the three tags is its outcome, with the detail
/// that was given, and without one of them nothing is read.
pub proof fn tag_decides_the_outcome(tag: Option<Seq<char>>, val: Option<Seq<char>>)
    ensures
        outcome_of((tag, val)) == Ok::<OutcomeView, Seq<char>>(OutcomeView::Pass) <==> tag == Some(
            "pass"@,
        ),
        (outcome_of((tag, val)) matches Ok(outcome) && outcome is Fail) <==> tag == Some("fail"@),
        (outcome_of((tag, val)) matches Ok(outcome) && outcome is Skipped) <==> tag == Some(
            "skipped"@,
        ),
        outcome_of((tag, val)) is Err <==> !(tag == Some("pass"@) || tag == Some("fail"@) || tag
            == Some("skipped"@)),
        val matches Some(detail) ==> (outcome_of((tag, val)) matches Ok(outcome) ==> match outcome {
            OutcomeView::Pass => true,
            OutcomeView::Fail(told) => told == detail,
            OutcomeView::Skipped(told) => told == detail,
        }),
{
    reveal_strlit("pass");
    reveal_strlit("fail");
    reveal_strlit("skipped");
    assert("pass"@[0] == 'p');
    assert("fail"@[0] == 'f');
}

/// A peer process counts by its own report and no other way: one that did not exit with success
/// or did not print text is an error, whatever it printed.
pub proof fn peer_counts_by_its_report(
    label: Seq<char>,
    success: bool,
    status: Seq<char>,
    stdout: Seq<u8>,
)
    ensures
        peer_report(label, success, status, stdout) matches Ok(outcome) ==> success && valid_utf8(
            stdout,
        ) && reported_in(decode_utf8(stdout)) == Ok::<OutcomeView, Seq<char>>(outcome),
        success && valid_utf8(stdout) && reported_in(decode_utf8(stdout)) is Ok ==> peer_report(
            label,
            success,
            status,
            stdout,
        ) == reported_in(decode_utf8(stdout)),
        !success ==> peer_report(label, success, status, stdout) == Err::<OutcomeView, Seq<char>>(
            label + " exited with "@ + status,
        ),
{
}

/// A failed fold names each side that failed, with its detail, and no other.
pub proof fn fold_names_who_failed(offerer: OutcomeView, answerer: OutcomeView)
    ensures
        folded(offerer, answerer) == match (offerer, answerer) {
            (OutcomeView::Fail(a), OutcomeView::Fail(b)) => OutcomeView::Fail(
                "offerer: "@ + a + "; answerer: "@ + b,
            ),
            (OutcomeView::Fail(a), _) => OutcomeView::Fail("offerer: "@ + a),
            (_, OutcomeView::Fail(b)) => OutcomeView::Fail("answerer: "@ + b),
            _ => folded(offerer, answerer),
        },
        folded(offerer, answerer) matches OutcomeView::Skipped(reason) ==> offerer
            == OutcomeView::Skipped(reason) || answerer == OutcomeView::Skipped(reason),
{
}

/// Only the last line that is not blank is a peer's report: what it printed before does not
/// count.
pub proof fn report_is_that_of_the_last_line(text: Seq<char>, other: Seq<char>)
    ensures
        last_line(text) == last_line(other) ==> reported_in(text) == reported_in(other),
        last_line(text) is None ==> reported_in(text) is Err,
        last_line(text) matches Some(line) ==> (json_fields(trimmed(line)) is Err ==> reported_in(
            text,
        ) is Err),
        last_line(text) matches Some(line) ==> (json_fields(trimmed(line)) matches Ok(fields)
            ==> reported_in(text) == outcome_of(fields)),
{
}

} // verus!
