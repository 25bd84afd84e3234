//! The conformance matrix: every target and environment against every registered test,
//! each cell classified against the target's declared policy.
//!
//! A test whose tag a target does not support is skipped there, whatever was reported.
//! A test that a target is expected to fail may fail, and must not pass. A test with no
//! result is missing, which is neutral. The run fails exactly when a cell holds a
//! failure or an unexpected pass.

use vstd::prelude::*;

use crate::json::opt_view;
use crate::manifest::{
    is_registered, manifest_views, ExpectedFail, ExpectedFailView, Manifest, ManifestView,
    RegisteredTest, Registry, TestView, Unsupported, UnsupportedView,
};
use crate::outcome::{AdapterReport, RawResult, RawStatus};
use crate::text::{decimal, decimal_text, holds, in_order, join, joined, same, sorted, views};

verus! {

// ----- cells ---------------------------------------------------------------------------

/// How a cell is classified.
#[derive(Debug, Clone, Copy, PartialEq, Eq, Structural)]
pub enum Status {
    Pass,
    Fail,
    Skip,
    /// Skipped because the target declares one of the test's tags unsupported.
    SkipUnsupported,
    /// Failed, as the target declares that it does.
    ExpectedFail,
    /// Passed, though the target declares that it fails.
    UnexpectedPass,
    /// No result was reported.
    Missing,
}

/// The mark a status is rendered as.
pub open spec fn mark(status: Status) -> Seq<char> {
    match status {
        Status::Pass => "pass"@,
        Status::Fail => "FAIL"@,
        Status::Skip => "skip"@,
        Status::SkipUnsupported => "skip"@,
        Status::ExpectedFail => "xfail"@,
        Status::UnexpectedPass => "UNEXPECTED-PASS"@,
        Status::Missing => "—"@,
    }
}

/// Whether a status fails the run.
pub open spec fn fails(status: Status) -> bool {
    status == Status::Fail || status == Status::UnexpectedPass
}

impl Status {
    /// The mark this status is rendered as.
    pub fn symbol(&self) -> (r: &'static str)
        ensures
            r@ == mark(*self),
    {
        match self {
            Status::Pass => "pass",
            Status::Fail => "FAIL",
            Status::Skip => "skip",
            Status::SkipUnsupported => "skip",
            Status::ExpectedFail => "xfail",
            Status::UnexpectedPass => "UNEXPECTED-PASS",
            Status::Missing => "—",
        }
    }

    /// Whether this status fails the run.
    pub fn is_failure(&self) -> (r: bool)
        ensures
            r == fails(*self),
    {
        match self {
            Status::Fail | Status::UnexpectedPass => true,
            _ => false,
        }
    }
}

/// One cell of the matrix.
#[derive(Debug, Clone)]
pub struct Cell {
    pub status: Status,
    pub detail: Option<String>,
}

/// One cell of the matrix.
pub struct CellView {
    pub status: Status,
    pub detail: Option<Seq<char>>,
}

impl View for Cell {
    type V = CellView;

    open spec fn view(&self) -> CellView {
        CellView { status: self.status, detail: opt_view(self.detail) }
    }
}

/// One row of the matrix: a target in an environment. A target that no adapter ran has
/// one row for planning, with no environment.
#[derive(Debug, Clone)]
pub struct Row {
    pub target: String,
    pub environment: String,
}

/// One row of the matrix.
pub struct RowView {
    pub target: Seq<char>,
    pub environment: Seq<char>,
}

impl View for Row {
    type V = RowView;

    open spec fn view(&self) -> RowView {
        RowView { target: self.target@, environment: self.environment@ }
    }
}

/// Each row.
pub open spec fn row_views(rows: Seq<Row>) -> Seq<RowView> {
    rows.map_values(|row: Row| row@)
}

/// Each cell.
pub open spec fn cell_views(cells: Seq<Cell>) -> Seq<CellView> {
    cells.map_values(|cell: Cell| cell@)
}

/// The cells of each row.
pub open spec fn grid_view(cells: Seq<Vec<Cell>>) -> Seq<Seq<CellView>> {
    cells.map_values(|row: Vec<Cell>| cell_views(row@))
}

/// The result document of an adapter.
pub struct ReportView {
    pub target: Seq<char>,
    pub environment: Seq<char>,
    pub results: Seq<(Seq<char>, RawStatus, Option<Seq<char>>)>,
}

/// Each raw result.
pub open spec fn result_views(results: Seq<RawResult>) -> Seq<
    (Seq<char>, RawStatus, Option<Seq<char>>),
> {
    results.map_values(|r: RawResult| r@)
}

impl View for AdapterReport {
    type V = ReportView;

    open spec fn view(&self) -> ReportView {
        ReportView {
            target: self.target@,
            environment: self.environment@,
            results: result_views(self.results@),
        }
    }
}

/// Each report.
pub open spec fn report_views(reports: Seq<AdapterReport>) -> Seq<ReportView> {
    reports.map_values(|r: AdapterReport| r@)
}

// ----- policy --------------------------------------------------------------------------

/// Whether an entry with this scope applies in an environment: one without a scope
/// applies everywhere.
pub open spec fn in_scope(scope: Option<Seq<Seq<char>>>, environment: Seq<char>) -> bool {
    match scope {
        Some(list) => list.contains(environment),
        None => true,
    }
}

fn applies(scope: &Option<Vec<String>>, environment: &str) -> (r: bool)
    ensures
        r == in_scope(crate::manifest::scope_view(*scope), environment@),
{
    match scope {
        Some(list) => holds(list.as_slice(), environment),
        None => true,
    }
}

/// Whether an entry declares a test unsupported in an environment.
pub open spec fn rules_out(
    entry: UnsupportedView,
    tags: Seq<Seq<char>>,
    environment: Seq<char>,
) -> bool {
    tags.contains(entry.tag) && in_scope(entry.environments, environment)
}

/// Whether an entry expects a test to fail in an environment.
pub open spec fn expects(
    entry: ExpectedFailView,
    test: Seq<char>,
    environment: Seq<char>,
) -> bool {
    entry.test == test && in_scope(entry.environments, environment)
}

/// The reason of the first entry from `from` on that declares a test unsupported.
pub open spec fn unsupported_reason(
    list: Seq<UnsupportedView>,
    tags: Seq<Seq<char>>,
    environment: Seq<char>,
    from: int,
) -> Option<Seq<char>>
    decreases list.len() - from,
{
    if from < 0 || from >= list.len() {
        None
    } else if rules_out(list[from], tags, environment) {
        Some(list[from].reason)
    } else {
        unsupported_reason(list, tags, environment, from + 1)
    }
}

/// The reason of the first entry from `from` on that expects a test to fail.
pub open spec fn expected_reason(
    list: Seq<ExpectedFailView>,
    test: Seq<char>,
    environment: Seq<char>,
    from: int,
) -> Option<Seq<char>>
    decreases list.len() - from,
{
    if from < 0 || from >= list.len() {
        None
    } else if expects(list[from], test, environment) {
        Some(list[from].reason)
    } else {
        expected_reason(list, test, environment, from + 1)
    }
}

/// The first result from `from` on that is for a test.
pub open spec fn result_for(
    results: Seq<(Seq<char>, RawStatus, Option<Seq<char>>)>,
    test: Seq<char>,
    from: int,
) -> Option<(RawStatus, Option<Seq<char>>)>
    decreases results.len() - from,
{
    if from < 0 || from >= results.len() {
        None
    } else if results[from].0 == test {
        Some((results[from].1, results[from].2))
    } else {
        result_for(results, test, from + 1)
    }
}

/// The first result for a test that the reports of a row hold, from report `from` on.
pub open spec fn reported_for(
    reports: Seq<ReportView>,
    row: RowView,
    test: Seq<char>,
    from: int,
) -> Option<(RawStatus, Option<Seq<char>>)>
    decreases reports.len() - from,
{
    if from < 0 || from >= reports.len() {
        None
    } else if reports[from].target == row.target && reports[from].environment == row.environment
        && result_for(reports[from].results, test, 0) is Some {
        result_for(reports[from].results, test, 0)
    } else {
        reported_for(reports, row, test, from + 1)
    }
}

/// The first manifest from `from` on that declares a target.
pub open spec fn policy_for(
    manifests: Seq<ManifestView>,
    target: Seq<char>,
    from: int,
) -> Option<ManifestView>
    decreases manifests.len() - from,
{
    if from < 0 || from >= manifests.len() {
        None
    } else if manifests[from].target == target {
        Some(manifests[from])
    } else {
        policy_for(manifests, target, from + 1)
    }
}

/// A cell's classification: from the reason it is unsupported, the reason it is expected
/// to fail, and the reported result.
pub open spec fn classified(
    unsupported: Option<Seq<char>>,
    expected: Option<Seq<char>>,
    reported: Option<(RawStatus, Option<Seq<char>>)>,
) -> CellView {
    if unsupported is Some {
        CellView { status: Status::SkipUnsupported, detail: unsupported }
    } else {
        match reported {
            None => CellView { status: Status::Missing, detail: None },
            Some((RawStatus::Skip, detail)) => CellView { status: Status::Skip, detail },
            Some((RawStatus::Pass, detail)) => if expected is Some {
                CellView { status: Status::UnexpectedPass, detail: expected }
            } else {
                CellView { status: Status::Pass, detail }
            },
            Some((RawStatus::Fail, detail)) => if expected is Some {
                CellView { status: Status::ExpectedFail, detail: expected }
            } else {
                CellView { status: Status::Fail, detail }
            },
        }
    }
}

/// The cell of a test in a row.
pub open spec fn cell_of(
    manifests: Seq<ManifestView>,
    reports: Seq<ReportView>,
    row: RowView,
    test: TestView,
) -> CellView {
    let reported = reported_for(reports, row, test.id, 0);
    match policy_for(manifests, row.target, 0) {
        Some(policy) => classified(
            unsupported_reason(policy.unsupported, test.tags, row.environment, 0),
            expected_reason(policy.expected_fail, test.id, row.environment, 0),
            reported,
        ),
        None => classified(None, None, reported),
    }
}

// ----- rows ----------------------------------------------------------------------------

/// The environments a target was reported in, each once, in the order of the reports.
pub open spec fn environments_of(reports: Seq<ReportView>, target: Seq<char>) -> Seq<Seq<char>>
    decreases reports.len(),
{
    if reports.len() == 0 {
        seq![]
    } else {
        let earlier = environments_of(reports.drop_last(), target);
        let report = reports.last();
        if report.target == target && !earlier.contains(report.environment) {
            earlier.push(report.environment)
        } else {
            earlier
        }
    }
}

/// The rows of a target in some environments.
pub open spec fn rows_in(target: Seq<char>, environments: Seq<Seq<char>>) -> Seq<RowView> {
    environments.map_values(|environment: Seq<char>| RowView { target, environment })
}

/// The rows of a declared target: one for each environment it was reported in, or one
/// for planning.
pub open spec fn rows_of(reports: Seq<ReportView>, target: Seq<char>) -> Seq<RowView> {
    let environments = environments_of(reports, target);
    if environments.len() == 0 {
        seq![RowView { target, environment: seq![] }]
    } else {
        rows_in(target, environments)
    }
}

/// The rows of every declared target.
pub open spec fn declared_rows(
    manifests: Seq<ManifestView>,
    reports: Seq<ReportView>,
) -> Seq<RowView>
    decreases manifests.len(),
{
    if manifests.len() == 0 {
        seq![]
    } else {
        declared_rows(manifests.drop_last(), reports) + rows_of(reports, manifests.last().target)
    }
}

/// The rows of the targets that were reported and not declared, each once, in the order
/// of the reports.
pub open spec fn undeclared_rows(
    manifests: Seq<ManifestView>,
    reports: Seq<ReportView>,
) -> Seq<RowView>
    decreases reports.len(),
{
    if reports.len() == 0 {
        seq![]
    } else {
        let earlier = undeclared_rows(manifests, reports.drop_last());
        let report = reports.last();
        let row = RowView { target: report.target, environment: report.environment };
        if policy_for(manifests, report.target, 0) is None && !earlier.contains(row) {
            earlier.push(row)
        } else {
            earlier
        }
    }
}

/// The rows of a run.
pub open spec fn rows_for(manifests: Seq<ManifestView>, reports: Seq<ReportView>) -> Seq<RowView> {
    declared_rows(manifests, reports) + undeclared_rows(manifests, reports)
}

// ----- the matrix ----------------------------------------------------------------------

/// The conformance matrix of a run.
#[derive(Debug, Clone)]
pub struct Matrix {
    pub rows: Vec<Row>,
    /// The ids of the registered tests.
    pub tests: Vec<String>,
    /// The cells of each row, one for each test.
    pub cells: Vec<Vec<Cell>>,
}

/// The conformance matrix of a run.
pub struct MatrixView {
    pub rows: Seq<RowView>,
    pub tests: Seq<Seq<char>>,
    pub cells: Seq<Seq<CellView>>,
}

impl View for Matrix {
    type V = MatrixView;

    open spec fn view(&self) -> MatrixView {
        MatrixView {
            rows: row_views(self.rows@),
            tests: views(self.tests@),
            cells: grid_view(self.cells@),
        }
    }
}

impl MatrixView {
    /// Each row has a cell for each test.
    pub open spec fn wf(self) -> bool {
        &&& self.cells.len() == self.rows.len()
        &&& forall|i: int|
            0 <= i < self.cells.len() ==> (#[trigger] self.cells[i]).len() == self.tests.len()
    }
}

/// The ids of the registered tests.
pub open spec fn ids(tests: Seq<TestView>) -> Seq<Seq<char>> {
    tests.map_values(|t: TestView| t.id)
}

/// The cells of a row.
pub open spec fn cells_of(
    tests: Seq<TestView>,
    manifests: Seq<ManifestView>,
    reports: Seq<ReportView>,
    row: RowView,
) -> Seq<CellView> {
    tests.map_values(|test: TestView| cell_of(manifests, reports, row, test))
}

/// The matrix of a run.
pub open spec fn matrix_of(
    tests: Seq<TestView>,
    manifests: Seq<ManifestView>,
    reports: Seq<ReportView>,
) -> MatrixView {
    let rows = rows_for(manifests, reports);
    MatrixView {
        rows,
        tests: ids(tests),
        cells: rows.map_values(|row: RowView| cells_of(tests, manifests, reports, row)),
    }
}

fn find_unsupported(list: &Vec<Unsupported>, tags: &Vec<String>, environment: &str) -> (r: Option<
    String,
>)
    ensures
        opt_view(r) == unsupported_reason(
            crate::manifest::unsupported_views(list@),
            views(tags@),
            environment@,
            0,
        ),
{
    let ghost all = crate::manifest::unsupported_views(list@);
    let mut i: usize = 0;
    while i < list.len()
        invariant
            i <= list@.len(),
            all == crate::manifest::unsupported_views(list@),
            unsupported_reason(all, views(tags@), environment@, 0) == unsupported_reason(
                all,
                views(tags@),
                environment@,
                i as int,
            ),
        decreases list@.len() - i,
    {
        assert(all[i as int] == list@[i as int]@);
        if holds(tags.as_slice(), list[i].tag.as_str()) && applies(
            &list[i].environments,
            environment,
        ) {
            return Some(list[i].reason.clone());
        }
        i += 1;
    }
    None
}

fn find_expected(list: &Vec<ExpectedFail>, test: &str, environment: &str) -> (r: Option<String>)
    ensures
        opt_view(r) == expected_reason(
            crate::manifest::expected_views(list@),
            test@,
            environment@,
            0,
        ),
{
    let ghost all = crate::manifest::expected_views(list@);
    let mut i: usize = 0;
    while i < list.len()
        invariant
            i <= list@.len(),
            all == crate::manifest::expected_views(list@),
            expected_reason(all, test@, environment@, 0) == expected_reason(
                all,
                test@,
                environment@,
                i as int,
            ),
        decreases list@.len() - i,
    {
        assert(all[i as int] == list@[i as int]@);
        if same(list[i].test.as_str(), test) && applies(&list[i].environments, environment) {
            return Some(list[i].reason.clone());
        }
        i += 1;
    }
    None
}

/// A found result, as characters.
pub open spec fn found_view(r: Option<&RawResult>) -> Option<(RawStatus, Option<Seq<char>>)> {
    match r {
        Some(result) => Some((result.status, opt_view(result.detail))),
        None => None,
    }
}

fn find_result<'a>(results: &'a Vec<RawResult>, test: &str) -> (r: Option<&'a RawResult>)
    ensures
        found_view(r) == result_for(result_views(results@), test@, 0),
{
    let ghost all = result_views(results@);
    let mut i: usize = 0;
    while i < results.len()
        invariant
            i <= results@.len(),
            all == result_views(results@),
            result_for(all, test@, 0) == result_for(all, test@, i as int),
        decreases results@.len() - i,
    {
        assert(all[i as int] == results@[i as int]@);
        if same(results[i].test_id.as_str(), test) {
            return Some(&results[i]);
        }
        i += 1;
    }
    None
}

fn find_reported<'a>(reports: &'a [AdapterReport], row: &Row, test: &str) -> (r: Option<
    &'a RawResult,
>)
    ensures
        found_view(r) == reported_for(report_views(reports@), row@, test@, 0),
{
    let ghost all = report_views(reports@);
    let mut i: usize = 0;
    while i < reports.len()
        invariant
            i <= reports@.len(),
            all == report_views(reports@),
            reported_for(all, row@, test@, 0) == reported_for(all, row@, test@, i as int),
        decreases reports@.len() - i,
    {
        assert(all[i as int] == reports@[i as int]@);
        if same(reports[i].target.as_str(), row.target.as_str()) && same(
            reports[i].environment.as_str(),
            row.environment.as_str(),
        ) {
            match find_result(&reports[i].results, test) {
                Some(result) => {
                    return Some(result);
                },
                None => {},
            }
        }
        i += 1;
    }
    None
}

/// A found policy.
pub open spec fn found_policy(r: Option<&Manifest>) -> Option<ManifestView> {
    match r {
        Some(manifest) => Some(manifest@),
        None => None,
    }
}

fn find_policy<'a>(manifests: &'a [Manifest], target: &str) -> (r: Option<&'a Manifest>)
    ensures
        found_policy(r) == policy_for(manifest_views(manifests@), target@, 0),
{
    let ghost all = manifest_views(manifests@);
    let mut i: usize = 0;
    while i < manifests.len()
        invariant
            i <= manifests@.len(),
            all == manifest_views(manifests@),
            policy_for(all, target@, 0) == policy_for(all, target@, i as int),
        decreases manifests@.len() - i,
    {
        assert(all[i as int] == manifests@[i as int]@);
        if same(manifests[i].target.as_str(), target) {
            return Some(&manifests[i]);
        }
        i += 1;
    }
    None
}

fn classify_cell(
    unsupported: Option<String>,
    expected: Option<String>,
    reported: Option<&RawResult>,
) -> (r: Cell)
    ensures
        r@ == classified(opt_view(unsupported), opt_view(expected), found_view(reported)),
{
    match unsupported {
        Some(reason) => Cell { status: Status::SkipUnsupported, detail: Some(reason) },
        None => match reported {
            None => Cell { status: Status::Missing, detail: None },
            Some(result) => {
                let detail = match &result.detail {
                    Some(detail) => Some(detail.clone()),
                    None => None,
                };
                match (result.status, expected) {
                    (RawStatus::Skip, _) => Cell { status: Status::Skip, detail },
                    (RawStatus::Pass, None) => Cell { status: Status::Pass, detail },
                    (RawStatus::Pass, Some(reason)) => Cell {
                        status: Status::UnexpectedPass,
                        detail: Some(reason),
                    },
                    (RawStatus::Fail, None) => Cell { status: Status::Fail, detail },
                    (RawStatus::Fail, Some(reason)) => Cell {
                        status: Status::ExpectedFail,
                        detail: Some(reason),
                    },
                }
            },
        },
    }
}

fn fill_cell(
    manifests: &[Manifest],
    reports: &[AdapterReport],
    row: &Row,
    test: &RegisteredTest,
) -> (r: Cell)
    ensures
        r@ == cell_of(manifest_views(manifests@), report_views(reports@), row@, test@),
{
    let reported = find_reported(reports, row, test.id.as_str());
    match find_policy(manifests, row.target.as_str()) {
        Some(policy) => {
            let unsupported = find_unsupported(
                &policy.unsupported,
                &test.tags,
                row.environment.as_str(),
            );
            let expected = find_expected(
                &policy.expected_fail,
                test.id.as_str(),
                row.environment.as_str(),
            );
            classify_cell(unsupported, expected, reported)
        },
        None => classify_cell(None, None, reported),
    }
}

fn list_environments(reports: &[AdapterReport], target: &str) -> (r: Vec<String>)
    ensures
        views(r@) == environments_of(report_views(reports@), target@),
{
    let ghost all = report_views(reports@);
    let mut list: Vec<String> = Vec::new();
    let mut i: usize = 0;
    assert(all.take(0) =~= Seq::<ReportView>::empty());
    assert(views(list@) =~= Seq::<Seq<char>>::empty());
    while i < reports.len()
        invariant
            i <= reports@.len(),
            all == report_views(reports@),
            views(list@) == environments_of(all.take(i as int), target@),
        decreases reports@.len() - i,
    {
        let ghost was = views(list@);
        assert(all.take(i + 1).drop_last() =~= all.take(i as int));
        assert(all.take(i + 1).last() == reports@[i as int]@);
        if same(reports[i].target.as_str(), target) {
            if !holds(list.as_slice(), reports[i].environment.as_str()) {
                list.push(reports[i].environment.clone());
                assert(views(list@) =~= was.push(reports@[i as int].environment@));
            }
        }
        i += 1;
    }
    assert(all.take(i as int) =~= all);
    list
}

fn add_rows(rows: &mut Vec<Row>, reports: &[AdapterReport], target: &str)
    ensures
        row_views(final(rows)@) == row_views(old(rows)@) + rows_of(report_views(reports@), target@),
{
    let ghost was = row_views(rows@);
    let environments = list_environments(reports, target);
    let ghost names = views(environments@);
    if environments.len() == 0 {
        let environment: String = "".to_owned();
        proof {
            reveal_strlit("");
            assert(environment@ =~= Seq::<char>::empty());
        }
        rows.push(Row { target: target.to_owned(), environment });
        assert(row_views(rows@) =~= was + rows_of(report_views(reports@), target@));
    } else {
        let mut i: usize = 0;
        assert(row_views(rows@) =~= was + rows_in(target@, names.take(0)));
        while i < environments.len()
            invariant
                i <= environments@.len(),
                names == views(environments@),
                row_views(rows@) == was + rows_in(target@, names.take(i as int)),
            decreases environments@.len() - i,
        {
            let ghost then = row_views(rows@);
            let row = Row { target: target.to_owned(), environment: environments[i].clone() };
            let ghost added = row@;
            rows.push(row);
            assert(row_views(rows@) =~= then.push(added));
            assert(rows_in(target@, names.take(i + 1)) =~= rows_in(
                target@,
                names.take(i as int),
            ).push(added));
            assert(row_views(rows@) =~= was + rows_in(target@, names.take(i + 1)));
            i += 1;
        }
        assert(names.take(i as int) =~= names);
    }
}

fn has_row(rows: &Vec<Row>, target: &str, environment: &str) -> (r: bool)
    ensures
        r == row_views(rows@).contains(RowView { target: target@, environment: environment@ }),
{
    let ghost wanted = RowView { target: target@, environment: environment@ };
    let mut i: usize = 0;
    while i < rows.len()
        invariant
            i <= rows@.len(),
            wanted == (RowView { target: target@, environment: environment@ }),
            forall|k: int| 0 <= k < i ==> row_views(rows@)[k] != wanted,
        decreases rows@.len() - i,
    {
        assert(row_views(rows@)[i as int] == rows@[i as int]@);
        if same(rows[i].target.as_str(), target) && same(
            rows[i].environment.as_str(),
            environment,
        ) {
            return true;
        }
        i += 1;
    }
    false
}

fn list_rows(manifests: &[Manifest], reports: &[AdapterReport]) -> (r: Vec<Row>)
    ensures
        row_views(r@) == rows_for(manifest_views(manifests@), report_views(reports@)),
{
    let ghost policies = manifest_views(manifests@);
    let ghost all = report_views(reports@);
    let mut rows: Vec<Row> = Vec::new();
    let mut i: usize = 0;
    assert(policies.take(0) =~= Seq::<ManifestView>::empty());
    assert(row_views(rows@) =~= declared_rows(policies.take(0), all));
    while i < manifests.len()
        invariant
            i <= manifests@.len(),
            policies == manifest_views(manifests@),
            all == report_views(reports@),
            row_views(rows@) == declared_rows(policies.take(i as int), all),
        decreases manifests@.len() - i,
    {
        assert(policies.take(i + 1).drop_last() =~= policies.take(i as int));
        assert(policies.take(i + 1).last() == manifests@[i as int]@);
        add_rows(&mut rows, reports, manifests[i].target.as_str());
        i += 1;
    }
    assert(policies.take(i as int) =~= policies);
    let mut extra: Vec<Row> = Vec::new();
    let mut j: usize = 0;
    assert(all.take(0) =~= Seq::<ReportView>::empty());
    assert(row_views(extra@) =~= undeclared_rows(policies, all.take(0)));
    while j < reports.len()
        invariant
            j <= reports@.len(),
            policies == manifest_views(manifests@),
            all == report_views(reports@),
            row_views(extra@) == undeclared_rows(policies, all.take(j as int)),
        decreases reports@.len() - j,
    {
        let ghost was = row_views(extra@);
        assert(all.take(j + 1).drop_last() =~= all.take(j as int));
        assert(all.take(j + 1).last() == reports@[j as int]@);
        let target = reports[j].target.as_str();
        let environment = reports[j].environment.as_str();
        let declared = match find_policy(manifests, target) {
            Some(_) => true,
            None => false,
        };
        if !declared && !has_row(&extra, target, environment) {
            let row = Row { target: target.to_owned(), environment: environment.to_owned() };
            let ghost added = row@;
            extra.push(row);
            assert(row_views(extra@) =~= was.push(added));
        }
        j += 1;
    }
    assert(all.take(j as int) =~= all);
    let ghost first = row_views(rows@);
    let ghost second = row_views(extra@);
    rows.append(&mut extra);
    assert(row_views(rows@) =~= first + second);
    rows
}

fn fill_row(
    registry: &Registry,
    manifests: &[Manifest],
    reports: &[AdapterReport],
    row: &Row,
) -> (r: Vec<Cell>)
    ensures
        cell_views(r@) == cells_of(
            registry@,
            manifest_views(manifests@),
            report_views(reports@),
            row@,
        ),
{
    let ghost whole = cells_of(
        registry@,
        manifest_views(manifests@),
        report_views(reports@),
        row@,
    );
    let mut cells: Vec<Cell> = Vec::new();
    let mut i: usize = 0;
    assert(cell_views(cells@) =~= whole.take(0));
    while i < registry.tests.len()
        invariant
            i <= registry.tests@.len(),
            whole == cells_of(
                registry@,
                manifest_views(manifests@),
                report_views(reports@),
                row@,
            ),
            whole.len() == registry.tests@.len(),
            cell_views(cells@) == whole.take(i as int),
        decreases registry.tests@.len() - i,
    {
        let ghost was = cell_views(cells@);
        let cell = fill_cell(manifests, reports, row, &registry.tests[i]);
        let ghost added = cell@;
        assert(registry@[i as int] == registry.tests@[i as int]@);
        assert(whole[i as int] == added);
        cells.push(cell);
        assert(cell_views(cells@) =~= was.push(added));
        assert(whole.take(i + 1) =~= whole.take(i as int).push(added));
        i += 1;
    }
    assert(whole.take(i as int) =~= whole);
    cells
}

impl Matrix {
    /// Classify a run: every row of the declared and the reported targets against every
    /// registered test.
    pub fn classify(
        registry: &Registry,
        manifests: &[Manifest],
        reports: &[AdapterReport],
    ) -> (r: Matrix)
        ensures
            r@ == matrix_of(registry@, manifest_views(manifests@), report_views(reports@)),
            r@.wf(),
    {
        let ghost policies = manifest_views(manifests@);
        let ghost all = report_views(reports@);
        let rows = list_rows(manifests, reports);
        let mut tests: Vec<String> = Vec::new();
        let mut i: usize = 0;
        let ghost names = ids(registry@);
        assert(views(tests@) =~= names.take(0));
        while i < registry.tests.len()
            invariant
                i <= registry.tests@.len(),
                names == ids(registry@),
                names.len() == registry.tests@.len(),
                views(tests@) == names.take(i as int),
            decreases registry.tests@.len() - i,
        {
            let ghost was = views(tests@);
            assert(registry@[i as int] == registry.tests@[i as int]@);
            tests.push(registry.tests[i].id.clone());
            assert(views(tests@) =~= was.push(names[i as int]));
            assert(names.take(i + 1) =~= names.take(i as int).push(names[i as int]));
            i += 1;
        }
        assert(names.take(i as int) =~= names);
        let ghost whole = matrix_of(registry@, policies, all).cells;
        let mut cells: Vec<Vec<Cell>> = Vec::new();
        let mut j: usize = 0;
        assert(grid_view(cells@) =~= whole.take(0));
        while j < rows.len()
            invariant
                j <= rows@.len(),
                policies == manifest_views(manifests@),
                all == report_views(reports@),
                row_views(rows@) == rows_for(policies, all),
                whole == matrix_of(registry@, policies, all).cells,
                whole.len() == rows@.len(),
                grid_view(cells@) == whole.take(j as int),
            decreases rows@.len() - j,
        {
            let ghost was = grid_view(cells@);
            assert(rows_for(policies, all)[j as int] == rows@[j as int]@);
            let filled = fill_row(registry, manifests, reports, &rows[j]);
            let ghost added = cell_views(filled@);
            assert(whole[j as int] == added);
            cells.push(filled);
            assert(grid_view(cells@) =~= was.push(added));
            assert(whole.take(j + 1) =~= whole.take(j as int).push(added));
            j += 1;
        }
        assert(whole.take(j as int) =~= whole);
        Matrix { rows, tests, cells }
    }

    /// The cell of a test in a target's row for an environment, the first there is.
    pub fn cell(&self, target: &str, environment: &str, test: &str) -> (r: Option<&Cell>)
        requires
            self@.wf(),
        ensures
            cell_found(r) == cell_at(
                self@,
                RowView { target: target@, environment: environment@ },
                test@,
            ),
    {
        let ghost wanted = RowView { target: target@, environment: environment@ };
        let ghost all = self@;
        let mut i: usize = 0;
        while i < self.rows.len()
            invariant
                i <= self.rows@.len(),
                all == self@,
                all.wf(),
                wanted == (RowView { target: target@, environment: environment@ }),
                first_at(all.rows, wanted, 0) == first_at(all.rows, wanted, i as int),
            decreases self.rows@.len() - i,
        {
            assert(all.rows[i as int] == self.rows@[i as int]@);
            if same(self.rows[i].target.as_str(), target) && same(
                self.rows[i].environment.as_str(),
                environment,
            ) {
                let mut j: usize = 0;
                while j < self.tests.len()
                    invariant
                        i < self.rows@.len(),
                        j <= self.tests@.len(),
                        all == self@,
                        all.wf(),
                        wanted == (RowView { target: target@, environment: environment@ }),
                        first_at(all.rows, wanted, 0) == i,
                        first_at(all.tests, test@, 0) == first_at(all.tests, test@, j as int),
                    decreases self.tests@.len() - j,
                {
                    assert(all.tests[j as int] == self.tests@[j as int]@);
                    assert(all.cells[i as int] == cell_views(self.cells@[i as int]@));
                    if same(self.tests[j].as_str(), test) {
                        assert(all.cells[i as int][j as int] == self.cells@[i as int]@[j as int]@);
                        return Some(&self.cells[i][j]);
                    }
                    j += 1;
                }
                return None;
            }
            i += 1;
        }
        None
    }

    /// Whether a cell fails the run.
    pub fn has_failures(&self) -> (r: bool)
        requires
            self@.wf(),
        ensures
            r == some_cell_fails(self@),
    {
        let ghost all = self@;
        let mut i: usize = 0;
        while i < self.rows.len()
            invariant
                i <= self.rows@.len(),
                all == self@,
                all.wf(),
                forall|a: int, b: int|
                    0 <= a < i && 0 <= b < all.tests.len() ==> !fails(
                        (#[trigger] all.cells[a][b]).status,
                    ),
            decreases self.rows@.len() - i,
        {
            let mut j: usize = 0;
            assert(all.cells[i as int] == cell_views(self.cells@[i as int]@));
            while j < self.tests.len()
                invariant
                    i < self.rows@.len(),
                    j <= self.tests@.len(),
                    all == self@,
                    all.wf(),
                    all.cells[i as int] == cell_views(self.cells@[i as int]@),
                    forall|a: int, b: int|
                        0 <= a < i && 0 <= b < all.tests.len() ==> !fails(
                            (#[trigger] all.cells[a][b]).status,
                        ),
                    forall|b: int|
                        0 <= b < j ==> !fails((#[trigger] all.cells[i as int][b]).status),
                decreases self.tests@.len() - j,
            {
                assert(all.cells[i as int][j as int] == self.cells@[i as int]@[j as int]@);
                if self.cells[i][j].status.is_failure() {
                    return true;
                }
                j += 1;
            }
            i += 1;
        }
        false
    }

    /// The failing cells, row by row.
    pub fn failures(&self) -> (r: Vec<Failure>)
        requires
            self@.wf(),
        ensures
            failure_views(r@) == failures_in(self@, self@.rows.len() as int),
    {
        let ghost all = self@;
        let mut list: Vec<Failure> = Vec::new();
        let mut i: usize = 0;
        assert(failure_views(list@) =~= failures_in(all, 0));
        while i < self.rows.len()
            invariant
                i <= self.rows@.len(),
                all == self@,
                all.wf(),
                failure_views(list@) == failures_in(all, i as int),
            decreases self.rows@.len() - i,
        {
            let ghost before = failure_views(list@);
            let mut j: usize = 0;
            assert(all.rows[i as int] == self.rows@[i as int]@);
            assert(all.cells[i as int] == cell_views(self.cells@[i as int]@));
            assert(failure_views(list@) =~= before + failures_of_row(all, i as int, 0));
            while j < self.tests.len()
                invariant
                    i < self.rows@.len(),
                    j <= self.tests@.len(),
                    all == self@,
                    all.wf(),
                    all.rows[i as int] == self.rows@[i as int]@,
                    all.cells[i as int] == cell_views(self.cells@[i as int]@),
                    failure_views(list@) == before + failures_of_row(all, i as int, j as int),
                decreases self.tests@.len() - j,
            {
                let ghost was = failure_views(list@);
                assert(all.tests[j as int] == self.tests@[j as int]@);
                assert(all.cells[i as int][j as int] == self.cells@[i as int]@[j as int]@);
                if self.cells[i][j].status.is_failure() {
                    let one = Failure {
                        target: self.rows[i].target.clone(),
                        environment: self.rows[i].environment.clone(),
                        test: self.tests[j].clone(),
                        status: self.cells[i][j].status,
                        detail: match &self.cells[i][j].detail {
                            Some(detail) => Some(detail.clone()),
                            None => None,
                        },
                    };
                    let ghost added = one@;
                    assert(added == failure_at(all, i as int, j as int));
                    list.push(one);
                    assert(failure_views(list@) =~= was.push(added));
                    assert(failure_views(list@) =~= before + failures_of_row(
                        all,
                        i as int,
                        j + 1,
                    ));
                }
                j += 1;
            }
            i += 1;
        }
        list
    }

    /// The tests a row has no result for.
    pub fn missing(&self, row: usize) -> (r: Vec<String>)
        requires
            self@.wf(),
            row < self.rows@.len(),
        ensures
            views(r@) == missing_in(self@, row as int, self@.tests.len() as int),
    {
        let ghost all = self@;
        let mut list: Vec<String> = Vec::new();
        let mut j: usize = 0;
        assert(all.cells[row as int] == cell_views(self.cells@[row as int]@));
        assert(views(list@) =~= missing_in(all, row as int, 0));
        while j < self.tests.len()
            invariant
                row < self.rows@.len(),
                j <= self.tests@.len(),
                all == self@,
                all.wf(),
                all.cells[row as int] == cell_views(self.cells@[row as int]@),
                views(list@) == missing_in(all, row as int, j as int),
            decreases self.tests@.len() - j,
        {
            let ghost was = views(list@);
            assert(all.tests[j as int] == self.tests@[j as int]@);
            assert(all.cells[row as int][j as int] == self.cells@[row as int]@[j as int]@);
            match self.cells[row][j].status {
                Status::Missing => {
                    list.push(self.tests[j].clone());
                    assert(views(list@) =~= was.push(all.tests[j as int]));
                },
                _ => {},
            }
            j += 1;
        }
        list
    }

    /// The warning a row deserves: an adapter ran it and reported no result for some
    /// registered tests. A row for planning deserves none.
    pub fn warning(&self, row: usize) -> (r: Option<String>)
        requires
            self@.wf(),
            row < self.rows@.len(),
        ensures
            opt_view(r) == warning_of(self@, row as int),
    {
        let ghost all = self@;
        assert(all.rows[row as int] == self.rows@[row as int]@);
        let environment = self.rows[row].environment.as_str();
        if is_empty(environment) {
            return None;
        }
        let missing = self.missing(row);
        assert(views(missing@).len() == missing@.len());
        if missing.len() == 0 {
            return None;
        }
        Some(
            "warning: ".to_owned().concat(self.rows[row].target.as_str()).concat(" [").concat(
                environment,
            ).concat("] reported no result for ").concat(
                decimal_text(missing.len() as u64).as_str(),
            ).concat(" registered test(s): ").concat(join(&missing, ", ").as_str()),
        )
    }

    /// What the run concludes: the line that reports success, or the error.
    pub fn conclusion(&self) -> (r: Result<String, String>)
        requires
            self@.wf(),
        ensures
            match r {
                Ok(line) => {
                    &&& !some_cell_fails(self@)
                    &&& line@ == "conformance run OK: "@ + decimal(self@.rows.len()) + " row(s), "@
                        + decimal(self@.tests.len()) + " test(s), no failures"@
                },
                Err(error) => {
                    &&& some_cell_fails(self@)
                    &&& error@ == "conformance run has failing or unexpected-pass results"@
                },
            },
    {
        if self.has_failures() {
            return Err("conformance run has failing or unexpected-pass results".to_owned());
        }
        let rows = decimal_text(self.rows.len() as u64);
        let tests = decimal_text(self.tests.len() as u64);
        Ok(
            "conformance run OK: ".to_owned().concat(rows.as_str()).concat(" row(s), ").concat(
                tests.as_str(),
            ).concat(" test(s), no failures"),
        )
    }

    /// The matrix as a markdown table: a line for each test, a column for each row.
    pub fn render_markdown(&self) -> (r: String)
        requires
            self@.wf(),
        ensures
            r@ == rendered(self@, self@.tests.len() as int),
    {
        let ghost all = self@;
        let mut head: String = "| Test |".to_owned();
        let mut rule: String = "| --- |".to_owned();
        let mut i: usize = 0;
        while i < self.rows.len()
            invariant
                i <= self.rows@.len(),
                all == self@,
                head@ == heading(all, i as int),
                rule@ == ruling(i as int),
            decreases self.rows@.len() - i,
        {
            assert(all.rows[i as int] == self.rows@[i as int]@);
            head = head.concat(" ").concat(self.rows[i].label().as_str()).concat(" |");
            rule = rule.concat(" --- |");
            i += 1;
        }
        let mut out = head.concat("\n").concat(rule.as_str()).concat("\n");
        let mut j: usize = 0;
        while j < self.tests.len()
            invariant
                j <= self.tests@.len(),
                all == self@,
                all.wf(),
                out@ == rendered(all, j as int),
            decreases self.tests@.len() - j,
        {
            assert(all.tests[j as int] == self.tests@[j as int]@);
            let mut line = "| ".to_owned().concat(self.tests[j].as_str()).concat(" |");
            let mut k: usize = 0;
            while k < self.rows.len()
                invariant
                    k <= self.rows@.len(),
                    j < self.tests@.len(),
                    all == self@,
                    all.wf(),
                    line@ == test_line(all, j as int, k as int),
                decreases self.rows@.len() - k,
            {
                assert(all.cells[k as int] == cell_views(self.cells@[k as int]@));
                assert(all.cells[k as int][j as int] == self.cells@[k as int]@[j as int]@);
                line = line.concat(" ").concat(self.cells[k][j].status.symbol()).concat(" |");
                k += 1;
            }
            out = out.concat(line.as_str()).concat("\n");
            j += 1;
        }
        out
    }
}

/// The first index from `from` on at which `wanted` stands; the length where it does
/// not.
pub open spec fn first_at<A>(list: Seq<A>, wanted: A, from: int) -> int
    decreases list.len() - from,
{
    if from < 0 || from >= list.len() {
        list.len() as int
    } else if list[from] == wanted {
        from
    } else {
        first_at(list, wanted, from + 1)
    }
}

/// The cell of a test in a row, the first there is.
pub open spec fn cell_at(matrix: MatrixView, row: RowView, test: Seq<char>) -> Option<CellView> {
    let i = first_at(matrix.rows, row, 0);
    let j = first_at(matrix.tests, test, 0);
    if i < matrix.rows.len() && j < matrix.tests.len() {
        Some(matrix.cells[i][j])
    } else {
        None
    }
}

/// A found cell.
pub open spec fn cell_found(r: Option<&Cell>) -> Option<CellView> {
    match r {
        Some(cell) => Some(cell@),
        None => None,
    }
}

/// Whether a cell fails the run.
pub open spec fn some_cell_fails(matrix: MatrixView) -> bool {
    exists|i: int, j: int|
        0 <= i < matrix.rows.len() && 0 <= j < matrix.tests.len() && fails(
            (#[trigger] matrix.cells[i][j]).status,
        )
}

/// A failing cell, with its row and its test.
#[derive(Debug, Clone)]
pub struct Failure {
    pub target: String,
    pub environment: String,
    pub test: String,
    pub status: Status,
    pub detail: Option<String>,
}

/// A failing cell, with its row and its test.
pub struct FailureView {
    pub row: RowView,
    pub test: Seq<char>,
    pub cell: CellView,
}

impl View for Failure {
    type V = FailureView;

    open spec fn view(&self) -> FailureView {
        FailureView {
            row: RowView { target: self.target@, environment: self.environment@ },
            test: self.test@,
            cell: CellView { status: self.status, detail: opt_view(self.detail) },
        }
    }
}

/// Each failing cell.
pub open spec fn failure_views(list: Seq<Failure>) -> Seq<FailureView> {
    list.map_values(|f: Failure| f@)
}

/// The cell of row `i` and test `j`.
pub open spec fn failure_at(matrix: MatrixView, i: int, j: int) -> FailureView {
    FailureView { row: matrix.rows[i], test: matrix.tests[j], cell: matrix.cells[i][j] }
}

/// The failing cells of row `i`, among the first `n` tests.
pub open spec fn failures_of_row(matrix: MatrixView, i: int, n: int) -> Seq<FailureView>
    decreases n,
{
    if n <= 0 {
        seq![]
    } else {
        let earlier = failures_of_row(matrix, i, n - 1);
        if fails(matrix.cells[i][n - 1].status) {
            earlier.push(failure_at(matrix, i, n - 1))
        } else {
            earlier
        }
    }
}

/// The failing cells of the first `n` rows.
pub open spec fn failures_in(matrix: MatrixView, n: int) -> Seq<FailureView>
    decreases n,
{
    if n <= 0 {
        seq![]
    } else {
        failures_in(matrix, n - 1) + failures_of_row(matrix, n - 1, matrix.tests.len() as int)
    }
}

/// The tests row `i` has no result for, among the first `n`.
pub open spec fn missing_in(matrix: MatrixView, i: int, n: int) -> Seq<Seq<char>>
    decreases n,
{
    if n <= 0 {
        seq![]
    } else {
        let earlier = missing_in(matrix, i, n - 1);
        if matrix.cells[i][n - 1].status == Status::Missing {
            earlier.push(matrix.tests[n - 1])
        } else {
            earlier
        }
    }
}

/// The warning row `i` deserves.
pub open spec fn warning_of(matrix: MatrixView, i: int) -> Option<Seq<char>> {
    let row = matrix.rows[i];
    let missing = missing_in(matrix, i, matrix.tests.len() as int);
    if row.environment.len() == 0 || missing.len() == 0 {
        None
    } else {
        Some(
            "warning: "@ + row.target + " ["@ + row.environment + "] reported no result for "@
                + decimal(missing.len()) + " registered test(s): "@ + joined(missing, ", "@),
        )
    }
}

/// How a row is named: by its target, and by its environment where it has one.
pub open spec fn row_label(row: RowView) -> Seq<char> {
    if row.environment.len() == 0 {
        row.target
    } else {
        row.target + " ["@ + row.environment + "]"@
    }
}

fn is_empty(s: &str) -> (r: bool)
    ensures
        r == (s@.len() == 0),
{
    proof {
        reveal_strlit("");
        assert(s@.len() == 0 ==> s@ =~= ""@);
    }
    same(s, "")
}

impl Row {
    /// How this row is named.
    pub fn label(&self) -> (r: String)
        ensures
            r@ == row_label(self@),
    {
        if is_empty(self.environment.as_str()) {
            self.target.clone()
        } else {
            self.target.clone().concat(" [").concat(self.environment.as_str()).concat("]")
        }
    }
}

/// The line that reports a failing cell.
pub open spec fn failure_line(failure: FailureView) -> Seq<char> {
    let line = "  "@ + row_label(failure.row) + " / "@ + failure.test + ": "@ + mark(
        failure.cell.status,
    );
    match failure.cell.detail {
        Some(detail) => line + " — "@ + detail,
        None => line,
    }
}

impl Failure {
    /// The line that reports this failing cell.
    pub fn line(&self) -> (r: String)
        ensures
            r@ == failure_line(self@),
    {
        let row = Row { target: self.target.clone(), environment: self.environment.clone() };
        let line = "  ".to_owned().concat(row.label().as_str()).concat(" / ").concat(
            self.test.as_str(),
        ).concat(": ").concat(self.status.symbol());
        match &self.detail {
            Some(detail) => line.concat(" — ").concat(detail.as_str()),
            None => line,
        }
    }
}

/// The heading of the table, with the first `n` columns.
pub open spec fn heading(matrix: MatrixView, n: int) -> Seq<char>
    decreases n,
{
    if n <= 0 {
        "| Test |"@
    } else {
        heading(matrix, n - 1) + " "@ + row_label(matrix.rows[n - 1]) + " |"@
    }
}

/// The rule under the heading, with the first `n` columns.
pub open spec fn ruling(n: int) -> Seq<char>
    decreases n,
{
    if n <= 0 {
        "| --- |"@
    } else {
        ruling(n - 1) + " --- |"@
    }
}

/// The line of test `j`, with the first `n` columns.
pub open spec fn test_line(matrix: MatrixView, j: int, n: int) -> Seq<char>
    decreases n,
{
    if n <= 0 {
        "| "@ + matrix.tests[j] + " |"@
    } else {
        test_line(matrix, j, n - 1) + " "@ + mark(matrix.cells[n - 1][j].status) + " |"@
    }
}

/// The table, with the lines of the first `n` tests.
pub open spec fn rendered(matrix: MatrixView, n: int) -> Seq<char>
    decreases n,
{
    let columns = matrix.rows.len() as int;
    if n <= 0 {
        heading(matrix, columns) + "\n"@ + ruling(columns) + "\n"@
    } else {
        rendered(matrix, n - 1) + test_line(matrix, n - 1, columns) + "\n"@
    }
}

// ----- reports -------------------------------------------------------------------------

/// The test ids of a report's results that are not registered.
pub open spec fn unregistered_in(
    tests: Seq<TestView>,
    results: Seq<(Seq<char>, RawStatus, Option<Seq<char>>)>,
) -> Seq<Seq<char>>
    decreases results.len(),
{
    if results.len() == 0 {
        seq![]
    } else {
        let earlier = unregistered_in(tests, results.drop_last());
        if is_registered(tests, results.last().0) {
            earlier
        } else {
            earlier.push(results.last().0)
        }
    }
}

/// Check that every result of a report is for a registered test. A report that names
/// another means that the registry was not updated.
pub fn check_registered(registry: &Registry, report: &AdapterReport) -> (r: Result<(), String>)
    ensures
        match r {
            Ok(_) => unregistered_in(registry@, report@.results).len() == 0,
            Err(error) => {
                let unregistered = unregistered_in(registry@, report@.results);
                &&& unregistered.len() > 0
                &&& error@ == "report for `"@ + report@.target + "` ["@ + report@.environment
                    + "] contains unregistered test id(s): "@ + joined(unregistered, ", "@)
                    + " — add them to tests.toml"@
            },
        },
{
    let ghost all = report@.results;
    let mut list: Vec<String> = Vec::new();
    let mut i: usize = 0;
    assert(all.take(0) =~= Seq::<(Seq<char>, RawStatus, Option<Seq<char>>)>::empty());
    assert(views(list@) =~= Seq::<Seq<char>>::empty());
    while i < report.results.len()
        invariant
            i <= report.results@.len(),
            all == report@.results,
            views(list@) == unregistered_in(registry@, all.take(i as int)),
        decreases report.results@.len() - i,
    {
        let ghost was = views(list@);
        assert(all.take(i + 1).drop_last() =~= all.take(i as int));
        assert(all.take(i + 1).last() == report.results@[i as int]@);
        match registry.get(report.results[i].test_id.as_str()) {
            Some(_) => {},
            None => {
                list.push(report.results[i].test_id.clone());
                assert(views(list@) =~= was.push(all[i as int].0));
            },
        }
        i += 1;
    }
    assert(all.take(i as int) =~= all);
    assert(views(list@).len() == list@.len());
    if list.len() == 0 {
        return Ok(());
    }
    Err(
        "report for `".to_owned().concat(report.target.as_str()).concat("` [").concat(
            report.environment.as_str(),
        ).concat("] contains unregistered test id(s): ").concat(
            join(&list, ", ").as_str(),
        ).concat(" — add them to tests.toml"),
    )
}

/// Whether a file of the results directory is a report: its extension is `json`.
pub open spec fn is_report(name: Seq<char>) -> bool {
    name.len() > 5 && name.skip(name.len() - 5) == ".json"@
}

fn names_report(name: &str) -> (r: bool)
    ensures
        r == is_report(name@),
{
    proof {
        reveal_strlit(".json");
    }
    let n = name.unicode_len();
    if n <= 5 {
        return false;
    }
    let ending = name.substring_char(n - 5, n);
    assert(ending@ =~= name@.skip(name@.len() - 5));
    same(ending, ".json")
}

/// The reports among the file names of the results directory, in the order they are
/// read in.
pub fn report_files(names: &[String]) -> (r: Vec<String>)
    ensures
        in_order(views(r@)),
        views(r@).to_multiset() == views(names@).filter(
            |name: Seq<char>| is_report(name),
        ).to_multiset(),
{
    let ghost all = views(names@);
    let ghost pred = |name: Seq<char>| is_report(name);
    let mut kept: Vec<String> = Vec::new();
    let mut i: usize = 0;
    assert(all.take(0) =~= Seq::<Seq<char>>::empty());
    assert(views(kept@) =~= all.take(0).filter(pred)) by {
        reveal(Seq::filter);
    }
    while i < names.len()
        invariant
            i <= names@.len(),
            all == views(names@),
            pred == (|name: Seq<char>| is_report(name)),
            views(kept@) == all.take(i as int).filter(pred),
        decreases names@.len() - i,
    {
        let ghost was = views(kept@);
        proof {
            reveal(Seq::filter);
            assert(all.take(i + 1).drop_last() =~= all.take(i as int));
            assert(all.take(i + 1).last() == names@[i as int]@);
        }
        if names_report(names[i].as_str()) {
            kept.push(names[i].clone());
            assert(views(kept@) =~= was.push(names@[i as int]@));
        }
        i += 1;
    }
    assert(all.take(i as int) =~= all);
    sorted(kept.as_slice())
}

// ----- laws ----------------------------------------------------------------------------

/// A test that a target does not support is skipped, whatever was reported for it, and
/// never fails the run.
pub proof fn unsupported_skips_regardless(
    reason: Seq<char>,
    expected: Option<Seq<char>>,
    reported: Option<(RawStatus, Option<Seq<char>>)>,
)
    ensures
        classified(Some(reason), expected, reported).status == Status::SkipUnsupported,
        !fails(classified(Some(reason), expected, reported).status),
{
}

proof fn lemma_unsupported(
    list: Seq<UnsupportedView>,
    tags: Seq<Seq<char>>,
    environment: Seq<char>,
    from: int,
)
    requires
        0 <= from,
    ensures
        unsupported_reason(list, tags, environment, from) is Some <==> exists|k: int|
            from <= k < list.len() && rules_out(#[trigger] list[k], tags, environment),
    decreases list.len() - from,
{
    if from < list.len() {
        lemma_unsupported(list, tags, environment, from + 1);
        if rules_out(list[from], tags, environment) {
        } else {
            assert(forall|k: int|
                from <= k < list.len() && rules_out(#[trigger] list[k], tags, environment) ==> from
                    + 1 <= k);
        }
    }
}

proof fn lemma_expected(
    list: Seq<ExpectedFailView>,
    test: Seq<char>,
    environment: Seq<char>,
    from: int,
)
    requires
        0 <= from,
    ensures
        expected_reason(list, test, environment, from) is Some <==> exists|k: int|
            from <= k < list.len() && expects(#[trigger] list[k], test, environment),
    decreases list.len() - from,
{
    if from < list.len() {
        lemma_expected(list, test, environment, from + 1);
        if expects(list[from], test, environment) {
        } else {
            assert(forall|k: int|
                from <= k < list.len() && expects(#[trigger] list[k], test, environment) ==> from
                    + 1 <= k);
        }
    }
}

/// Whether a target is declared, and manifest `i` is the first that declares it.
pub open spec fn first_declaring(manifests: Seq<ManifestView>, target: Seq<char>, i: int) -> bool {
    &&& 0 <= i < manifests.len()
    &&& manifests[i].target == target
    &&& forall|j: int| 0 <= j < i ==> (#[trigger] manifests[j]).target != target
}

proof fn lemma_policy(manifests: Seq<ManifestView>, target: Seq<char>, from: int)
    requires
        0 <= from <= manifests.len(),
        forall|j: int| 0 <= j < from ==> (#[trigger] manifests[j]).target != target,
    ensures
        policy_for(manifests, target, from) is Some <==> exists|i: int|
            0 <= i < manifests.len() && (#[trigger] manifests[i]).target == target,
        policy_for(manifests, target, from) is Some ==> exists|i: int|
            #[trigger] first_declaring(manifests, target, i),
        forall|i: int|
            #[trigger] first_declaring(manifests, target, i) ==> policy_for(
                manifests,
                target,
                from,
            ) == Some(manifests[i]),
    decreases manifests.len() - from,
{
    if from < manifests.len() {
        if manifests[from].target == target {
            assert(first_declaring(manifests, target, from));
            assert forall|i: int| #[trigger] first_declaring(manifests, target, i) implies i
                == from by {
                if i < from {
                    assert(manifests[i].target != target);
                } else if from < i {
                    assert(manifests[from].target != target);
                }
            }
        } else {
            lemma_policy(manifests, target, from + 1);
        }
    }
}

/// A target's policy is the first manifest of the list that declares it, wherever in the
/// list that stands, and it has none only if no manifest declares it.
pub proof fn policy_is_the_first_declared(manifests: Seq<ManifestView>, target: Seq<char>)
    ensures
        policy_for(manifests, target, 0) is Some <==> exists|i: int|
            0 <= i < manifests.len() && (#[trigger] manifests[i]).target == target,
        policy_for(manifests, target, 0) is Some ==> exists|i: int|
            #[trigger] first_declaring(manifests, target, i),
        forall|i: int|
            #[trigger] first_declaring(manifests, target, i) ==> policy_for(manifests, target, 0)
                == Some(manifests[i]),
{
    lemma_policy(manifests, target, 0);
}

/// Whether a test is declared unsupported in an environment: the first manifest that
/// declares the target has an entry for one of its tags that is not confined to other
/// environments.
pub open spec fn declared_unsupported(
    manifests: Seq<ManifestView>,
    row: RowView,
    test: TestView,
) -> bool {
    exists|i: int, k: int|
        #[trigger] first_declaring(manifests, row.target, i) && 0 <= k
            < manifests[i].unsupported.len() && ({
            let entry = #[trigger] manifests[i].unsupported[k];
            &&& test.tags.contains(entry.tag)
            &&& entry.environments matches Some(list) ==> list.contains(row.environment)
        })
}

/// Whether a test is declared to fail in an environment: the first manifest that declares
/// the target has an entry for it that is not confined to other environments.
pub open spec fn declared_to_fail(
    manifests: Seq<ManifestView>,
    row: RowView,
    test: TestView,
) -> bool {
    exists|i: int, k: int|
        #[trigger] first_declaring(manifests, row.target, i) && 0 <= k
            < manifests[i].expected_fail.len() && ({
            let entry = #[trigger] manifests[i].expected_fail[k];
            &&& entry.test == test.id
            &&& entry.environments matches Some(list) ==> list.contains(row.environment)
        })
}

proof fn lemma_declared(manifests: Seq<ManifestView>, row: RowView, test: TestView)
    ensures
        match policy_for(manifests, row.target, 0) {
            Some(policy) => {
                &&& declared_unsupported(manifests, row, test) <==> unsupported_reason(
                    policy.unsupported,
                    test.tags,
                    row.environment,
                    0,
                ) is Some
                &&& declared_to_fail(manifests, row, test) <==> expected_reason(
                    policy.expected_fail,
                    test.id,
                    row.environment,
                    0,
                ) is Some
            },
            None => !declared_unsupported(manifests, row, test) && !declared_to_fail(
                manifests,
                row,
                test,
            ),
        },
{
    policy_is_the_first_declared(manifests, row.target);
    if let Some(policy) = policy_for(manifests, row.target, 0) {
        let i = choose|i: int| #[trigger] first_declaring(manifests, row.target, i);
        assert(policy == manifests[i]);
        lemma_unsupported(policy.unsupported, test.tags, row.environment, 0);
        lemma_expected(policy.expected_fail, test.id, row.environment, 0);
        if unsupported_reason(policy.unsupported, test.tags, row.environment, 0) is Some {
            let k = choose|k: int|
                0 <= k < policy.unsupported.len() && rules_out(
                    #[trigger] policy.unsupported[k],
                    test.tags,
                    row.environment,
                );
            let entry = manifests[i].unsupported[k];
            assert(first_declaring(manifests, row.target, i));
            assert(declared_unsupported(manifests, row, test));
        }
        if expected_reason(policy.expected_fail, test.id, row.environment, 0) is Some {
            let k = choose|k: int|
                0 <= k < policy.expected_fail.len() && expects(
                    #[trigger] policy.expected_fail[k],
                    test.id,
                    row.environment,
                );
            let entry = manifests[i].expected_fail[k];
            assert(first_declaring(manifests, row.target, i));
            assert(declared_to_fail(manifests, row, test));
        }
        if declared_unsupported(manifests, row, test) {
            let (m, k) = choose|m: int, k: int|
                #[trigger] first_declaring(manifests, row.target, m) && 0 <= k
                    < manifests[m].unsupported.len() && ({
                    let entry = #[trigger] manifests[m].unsupported[k];
                    &&& test.tags.contains(entry.tag)
                    &&& entry.environments matches Some(list) ==> list.contains(row.environment)
                });
            assert(manifests[m] == policy);
            assert(rules_out(policy.unsupported[k], test.tags, row.environment));
        }
        if declared_to_fail(manifests, row, test) {
            let (m, k) = choose|m: int, k: int|
                #[trigger] first_declaring(manifests, row.target, m) && 0 <= k
                    < manifests[m].expected_fail.len() && ({
                    let entry = #[trigger] manifests[m].expected_fail[k];
                    &&& entry.test == test.id
                    &&& entry.environments matches Some(list) ==> list.contains(row.environment)
                });
            assert(manifests[m] == policy);
            assert(expects(policy.expected_fail[k], test.id, row.environment));
        }
    }
}

/// Whether result `k` of report `i` is the one that counts for a test in a row: the first
/// for that test in the reports of the row's target and environment.
pub open spec fn first_result(
    reports: Seq<ReportView>,
    row: RowView,
    test: Seq<char>,
    i: int,
    k: int,
) -> bool {
    &&& 0 <= i < reports.len()
    &&& reports[i].target == row.target
    &&& reports[i].environment == row.environment
    &&& 0 <= k < reports[i].results.len()
    &&& reports[i].results[k].0 == test
    &&& forall|m: int| 0 <= m < k ==> (#[trigger] reports[i].results[m]).0 != test
    &&& forall|j: int, m: int|
        0 <= j < i && reports[j].target == row.target && reports[j].environment == row.environment
            && 0 <= m < reports[j].results.len() ==> (#[trigger] reports[j].results[m]).0 != test
}

proof fn lemma_result(
    results: Seq<(Seq<char>, RawStatus, Option<Seq<char>>)>,
    test: Seq<char>,
    from: int,
)
    requires
        0 <= from <= results.len(),
        forall|m: int| 0 <= m < from ==> (#[trigger] results[m]).0 != test,
    ensures
        result_for(results, test, from) is None <==> forall|m: int|
            0 <= m < results.len() ==> (#[trigger] results[m]).0 != test,
        result_for(results, test, from) matches Some(found) ==> exists|k: int|
            0 <= k < results.len() && (#[trigger] results[k]).0 == test && found == (
                results[k].1,
                results[k].2,
            ) && forall|m: int| 0 <= m < k ==> (#[trigger] results[m]).0 != test,
    decreases results.len() - from,
{
    if from < results.len() && results[from].0 != test {
        lemma_result(results, test, from + 1);
    }
}

proof fn lemma_reported(reports: Seq<ReportView>, row: RowView, test: Seq<char>, from: int)
    requires
        0 <= from <= reports.len(),
        forall|j: int, m: int|
            0 <= j < from && reports[j].target == row.target && reports[j].environment
                == row.environment && 0 <= m < reports[j].results.len() ==> (
            #[trigger] reports[j].results[m]).0 != test,
    ensures
        match reported_for(reports, row, test, from) {
            Some(found) => exists|i: int, k: int| #[trigger]
                first_result(reports, row, test, i, k) && found == (
                    reports[i].results[k].1,
                    reports[i].results[k].2,
                ),
            None => forall|j: int, m: int|
                0 <= j < reports.len() && reports[j].target == row.target && reports[j].environment
                    == row.environment && 0 <= m < reports[j].results.len() ==> (
                #[trigger] reports[j].results[m]).0 != test,
        },
    decreases reports.len() - from,
{
    if from < reports.len() {
        let results = reports[from].results;
        lemma_result(results, test, 0);
        if reports[from].target == row.target && reports[from].environment == row.environment
            && result_for(results, test, 0) is Some {
            let found = result_for(results, test, 0)->Some_0;
            let k = choose|k: int|
                0 <= k < results.len() && (#[trigger] results[k]).0 == test && found == (
                    results[k].1,
                    results[k].2,
                ) && forall|m: int| 0 <= m < k ==> (#[trigger] results[m]).0 != test;
            assert(first_result(reports, row, test, from, k));
        } else {
            lemma_reported(reports, row, test, from + 1);
        }
    }
}

/// The result that counts for a test in a row is the first that any report of the row's
/// target and environment holds for it, whichever report that is; there is none only if no
/// such report names the test.
pub proof fn result_is_the_first_reported(reports: Seq<ReportView>, row: RowView, test: Seq<char>)
    ensures
        reported_for(reports, row, test, 0) is None <==> forall|j: int, m: int|
            0 <= j < reports.len() && reports[j].target == row.target && reports[j].environment
                == row.environment && 0 <= m < reports[j].results.len() ==> (
            #[trigger] reports[j].results[m]).0 != test,
        forall|i: int, k: int| #[trigger]
            first_result(reports, row, test, i, k) ==> reported_for(reports, row, test, 0) == Some(
                (reports[i].results[k].1, reports[i].results[k].2),
            ),
{
    lemma_reported(reports, row, test, 0);
    if let Some(found) = reported_for(reports, row, test, 0) {
        let (a, b) = choose|a: int, b: int| #[trigger]
            first_result(reports, row, test, a, b) && found == (
                reports[a].results[b].1,
                reports[a].results[b].2,
            );
        assert(reports[a].results[b].0 == test);
        assert forall|i: int, k: int| #[trigger] first_result(reports, row, test, i, k) implies i
            == a && k == b by {
            assert(reports[i].results[k].0 == test);
            if i == a && k < b {
                assert(reports[a].results[k].0 != test);
            }
            if i == a && b < k {
                assert(reports[i].results[b].0 != test);
            }
        }
    } else {
        assert forall|i: int, k: int| #[trigger]
            first_result(reports, row, test, i, k) implies false by {
            assert(reports[i].results[k].0 != test);
        }
    }
}

/// A cell is skipped as unsupported exactly if its target's policy, the first manifest that
/// declares the target, has an entry for one of the test's tags that applies in the row's
/// environment.
pub proof fn skipped_iff_declared_unsupported(
    manifests: Seq<ManifestView>,
    reports: Seq<ReportView>,
    row: RowView,
    test: TestView,
)
    ensures
        cell_of(manifests, reports, row, test).status == Status::SkipUnsupported
            <==> declared_unsupported(manifests, row, test),
{
    lemma_declared(manifests, row, test);
}

/// A test that is supported and reported in a row has the status that its first result and
/// the target's policy come to, and the result's own detail where the policy does not
/// speak of it.
pub proof fn cell_holds_the_first_result(
    manifests: Seq<ManifestView>,
    reports: Seq<ReportView>,
    row: RowView,
    test: TestView,
    i: int,
    k: int,
)
    requires
        first_result(reports, row, test.id, i, k),
        !declared_unsupported(manifests, row, test),
    ensures
        ({
            let (_, reported, detail) = reports[i].results[k];
            let cell = cell_of(manifests, reports, row, test);
            let expected = declared_to_fail(manifests, row, test);
            &&& cell.status == match (reported, expected) {
                (RawStatus::Skip, _) => Status::Skip,
                (RawStatus::Pass, false) => Status::Pass,
                (RawStatus::Pass, true) => Status::UnexpectedPass,
                (RawStatus::Fail, false) => Status::Fail,
                (RawStatus::Fail, true) => Status::ExpectedFail,
            }
            &&& reported == RawStatus::Skip || !expected ==> cell.detail == detail
        }),
{
    lemma_declared(manifests, row, test);
    result_is_the_first_reported(reports, row, test.id);
}

/// A test that is supported and that no report of the row names is missing.
pub proof fn unreported_test_is_missing(
    manifests: Seq<ManifestView>,
    reports: Seq<ReportView>,
    row: RowView,
    test: TestView,
)
    requires
        !declared_unsupported(manifests, row, test),
    ensures
        cell_of(manifests, reports, row, test).status == Status::Missing <==> forall|
            j: int,
            m: int,
        |
            0 <= j < reports.len() && reports[j].target == row.target && reports[j].environment
                == row.environment && 0 <= m < reports[j].results.len() ==> (
            #[trigger] reports[j].results[m]).0 != test.id,
{
    lemma_declared(manifests, row, test);
    result_is_the_first_reported(reports, row, test.id);
}

/// A cell that a policy decides gives the reason of the first entry of it that applies.
pub proof fn reason_is_that_of_the_first_entry(policy: ManifestView, row: RowView, test: TestView)
    ensures
        forall|k: int|
            0 <= k < policy.unsupported.len() && rules_out(
                #[trigger] policy.unsupported[k],
                test.tags,
                row.environment,
            ) && (forall|m: int|
                0 <= m < k ==> !rules_out(
                    #[trigger] policy.unsupported[m],
                    test.tags,
                    row.environment,
                )) ==> unsupported_reason(policy.unsupported, test.tags, row.environment, 0)
                == Some(policy.unsupported[k].reason),
        forall|k: int|
            0 <= k < policy.expected_fail.len() && expects(
                #[trigger] policy.expected_fail[k],
                test.id,
                row.environment,
            ) && (forall|m: int|
                0 <= m < k ==> !expects(
                    #[trigger] policy.expected_fail[m],
                    test.id,
                    row.environment,
                )) ==> expected_reason(policy.expected_fail, test.id, row.environment, 0) == Some(
                policy.expected_fail[k].reason,
            ),
{
    assert forall|k: int|
        0 <= k < policy.unsupported.len() && rules_out(
            #[trigger] policy.unsupported[k],
            test.tags,
            row.environment,
        ) && (forall|m: int|
            0 <= m < k ==> !rules_out(
                #[trigger] policy.unsupported[m],
                test.tags,
                row.environment,
            )) implies unsupported_reason(policy.unsupported, test.tags, row.environment, 0)
        == Some(policy.unsupported[k].reason) by {
        lemma_first_unsupported(policy.unsupported, test.tags, row.environment, 0, k);
    }
    assert forall|k: int|
        0 <= k < policy.expected_fail.len() && expects(
            #[trigger] policy.expected_fail[k],
            test.id,
            row.environment,
        ) && (forall|m: int|
            0 <= m < k ==> !expects(
                #[trigger] policy.expected_fail[m],
                test.id,
                row.environment,
            )) implies expected_reason(policy.expected_fail, test.id, row.environment, 0) == Some(
        policy.expected_fail[k].reason,
    ) by {
        lemma_first_expected(policy.expected_fail, test.id, row.environment, 0, k);
    }
}

/// A cell that the policy decides tells why: one that is unsupported gives the reason of the
/// first entry that rules it out, and one that was expected to fail that of the first entry that
/// expects it.
pub proof fn cell_tells_the_reason(
    manifests: Seq<ManifestView>,
    reports: Seq<ReportView>,
    row: RowView,
    test: TestView,
    i: int,
    k: int,
)
    requires
        first_declaring(manifests, row.target, i),
    ensures
        ({
            let policy = manifests[i];
            let cell = cell_of(manifests, reports, row, test);
            &&& 0 <= k < policy.unsupported.len() && rules_out(
                policy.unsupported[k],
                test.tags,
                row.environment,
            ) && (forall|m: int|
                0 <= m < k ==> !rules_out(
                    #[trigger] policy.unsupported[m],
                    test.tags,
                    row.environment,
                )) ==> cell.detail == Some(policy.unsupported[k].reason)
            &&& 0 <= k < policy.expected_fail.len() && expects(
                policy.expected_fail[k],
                test.id,
                row.environment,
            ) && (forall|m: int|
                0 <= m < k ==> !expects(
                    #[trigger] policy.expected_fail[m],
                    test.id,
                    row.environment,
                )) && (cell.status == Status::ExpectedFail || cell.status == Status::UnexpectedPass)
                ==> cell.detail == Some(policy.expected_fail[k].reason)
        }),
{
    policy_is_the_first_declared(manifests, row.target);
    reason_is_that_of_the_first_entry(manifests[i], row, test);
}

proof fn lemma_first_unsupported(
    list: Seq<UnsupportedView>,
    tags: Seq<Seq<char>>,
    environment: Seq<char>,
    from: int,
    k: int,
)
    requires
        0 <= from <= k < list.len(),
        rules_out(list[k], tags, environment),
        forall|m: int| from <= m < k ==> !rules_out(#[trigger] list[m], tags, environment),
    ensures
        unsupported_reason(list, tags, environment, from) == Some(list[k].reason),
    decreases k - from,
{
    if from < k {
        lemma_first_unsupported(list, tags, environment, from + 1, k);
    }
}

proof fn lemma_first_expected(
    list: Seq<ExpectedFailView>,
    test: Seq<char>,
    environment: Seq<char>,
    from: int,
    k: int,
)
    requires
        0 <= from <= k < list.len(),
        expects(list[k], test, environment),
        forall|m: int| from <= m < k ==> !expects(#[trigger] list[m], test, environment),
    ensures
        expected_reason(list, test, environment, from) == Some(list[k].reason),
    decreases k - from,
{
    if from < k {
        lemma_first_expected(list, test, environment, from + 1, k);
    }
}

/// A cell fails the run exactly when the test is supported there and its result is the
/// opposite of what the target declares: a failure that no entry applying in the row's
/// environment expects, or a pass that one does.
pub proof fn fails_iff_against_policy(
    manifests: Seq<ManifestView>,
    reports: Seq<ReportView>,
    row: RowView,
    test: TestView,
)
    ensures
        fails(cell_of(manifests, reports, row, test).status) <==> {
            &&& !declared_unsupported(manifests, row, test)
            &&& exists|i: int, k: int| #[trigger]
                first_result(reports, row, test.id, i, k) && reports[i].results[k].1
                    == if declared_to_fail(manifests, row, test) {
                    RawStatus::Pass
                } else {
                    RawStatus::Fail
                }
        },
{
    lemma_declared(manifests, row, test);
    lemma_reported(reports, row, test.id, 0);
    result_is_the_first_reported(reports, row, test.id);
}

/// A target that no manifest declares has no policy: a cell fails the run exactly when its
/// test failed.
pub proof fn undeclared_target_fails_plainly(
    manifests: Seq<ManifestView>,
    reports: Seq<ReportView>,
    row: RowView,
    test: TestView,
)
    requires
        forall|i: int| 0 <= i < manifests.len() ==> (#[trigger] manifests[i]).target != row.target,
    ensures
        fails(cell_of(manifests, reports, row, test).status) <==> exists|i: int, k: int| #[trigger]
            first_result(reports, row, test.id, i, k) && reports[i].results[k].1
                == RawStatus::Fail,
{
    policy_is_the_first_declared(manifests, row.target);
    fails_iff_against_policy(manifests, reports, row, test);
    lemma_declared(manifests, row, test);
}

/// An entry without a scope applies in every environment; one with a scope applies in
/// the environments it lists and in no other.
pub proof fn scope_is_exact(scope: Option<Seq<Seq<char>>>, environment: Seq<char>)
    ensures
        in_scope(scope, environment) <==> (scope matches Some(list) ==> list.contains(environment)),
{
}

proof fn lemma_reported_elsewhere(
    reports: Seq<ReportView>,
    extra: ReportView,
    row: RowView,
    test: Seq<char>,
    from: int,
)
    requires
        extra.target != row.target || extra.environment != row.environment,
        0 <= from,
    ensures
        reported_for(reports.push(extra), row, test, from) == reported_for(reports, row, test, from),
    decreases reports.len() - from,
{
    let more = reports.push(extra);
    if from < reports.len() {
        assert(more[from] == reports[from]);
        lemma_reported_elsewhere(reports, extra, row, test, from + 1);
    } else if from == reports.len() {
        assert(more[from] == extra);
        assert(reported_for(more, row, test, from + 1) is None);
    }
}

/// Rows are independent: a report for another target or another environment changes no
/// cell of a row.
pub proof fn environments_are_independent(
    manifests: Seq<ManifestView>,
    reports: Seq<ReportView>,
    extra: ReportView,
    row: RowView,
    test: TestView,
)
    requires
        extra.target != row.target || extra.environment != row.environment,
    ensures
        cell_of(manifests, reports.push(extra), row, test) == cell_of(manifests, reports, row, test),
{
    lemma_reported_elsewhere(reports, extra, row, test.id, 0);
}

proof fn lemma_row_failures(matrix: MatrixView, i: int, n: int)
    requires
        0 <= n,
    ensures
        failures_of_row(matrix, i, n).len() > 0 <==> exists|j: int|
            0 <= j < n && fails((#[trigger] matrix.cells[i][j]).status),
    decreases n,
{
    if n > 0 {
        lemma_row_failures(matrix, i, n - 1);
        if fails(matrix.cells[i][n - 1].status) {
        } else {
            assert(forall|j: int|
                0 <= j < n && fails((#[trigger] matrix.cells[i][j]).status) ==> j < n - 1);
        }
    }
}

proof fn lemma_failures(matrix: MatrixView, n: int)
    requires
        0 <= n,
    ensures
        failures_in(matrix, n).len() > 0 <==> exists|i: int, j: int|
            0 <= i < n && 0 <= j < matrix.tests.len() && fails(
                (#[trigger] matrix.cells[i][j]).status,
            ),
    decreases n,
{
    if n > 0 {
        lemma_failures(matrix, n - 1);
        lemma_row_failures(matrix, n - 1, matrix.tests.len() as int);
        if failures_of_row(matrix, n - 1, matrix.tests.len() as int).len() == 0 {
            assert(forall|i: int, j: int|
                0 <= i < n && 0 <= j < matrix.tests.len() && fails(
                    (#[trigger] matrix.cells[i][j]).status,
                ) ==> i < n - 1);
        } else {
            let j = choose|j: int|
                0 <= j < matrix.tests.len() && fails((#[trigger] matrix.cells[n - 1][j]).status);
            assert(fails(matrix.cells[n - 1][j].status));
        }
    }
}

/// The run fails exactly when there is a failing cell to report.
pub proof fn failing_run_reports_failures(matrix: MatrixView)
    ensures
        some_cell_fails(matrix) <==> failures_in(matrix, matrix.rows.len() as int).len() > 0,
{
    lemma_failures(matrix, matrix.rows.len() as int);
}

/// A run with no manifests and no reports has no rows and does not fail.
pub proof fn empty_run_passes(tests: Seq<TestView>)
    ensures
        matrix_of(tests, seq![], seq![]).rows.len() == 0,
        !some_cell_fails(matrix_of(tests, seq![], seq![])),
{
}

proof fn lemma_not_reported(reports: Seq<ReportView>, row: RowView, test: Seq<char>, from: int)
    requires
        0 <= from,
        forall|k: int|
            0 <= k < reports.len() ==> (#[trigger] reports[k]).target != row.target,
    ensures
        reported_for(reports, row, test, from) is None,
    decreases reports.len() - from,
{
    if from < reports.len() {
        lemma_not_reported(reports, row, test, from + 1);
    }
}

proof fn lemma_no_environments(reports: Seq<ReportView>, target: Seq<char>)
    requires
        forall|k: int| 0 <= k < reports.len() ==> (#[trigger] reports[k]).target != target,
    ensures
        environments_of(reports, target).len() == 0,
    decreases reports.len(),
{
    if reports.len() > 0 {
        assert(reports.last().target != target);
        assert forall|k: int| 0 <= k < reports.drop_last().len() implies (
        #[trigger] reports.drop_last()[k]).target != target by {
            assert(reports.drop_last()[k] == reports[k]);
        }
        lemma_no_environments(reports.drop_last(), target);
    }
}

/// A declared target that no adapter ran has one row, with no environment, in which
/// every test is missing or skipped as unsupported: it cannot fail the run.
pub proof fn unreported_target_is_only_planned(
    manifests: Seq<ManifestView>,
    reports: Seq<ReportView>,
    target: Seq<char>,
    test: TestView,
)
    requires
        forall|k: int| 0 <= k < reports.len() ==> (#[trigger] reports[k]).target != target,
    ensures
        rows_of(reports, target) == seq![RowView { target, environment: Seq::<char>::empty() }],
        ({
            let status = cell_of(
                manifests,
                reports,
                RowView { target, environment: Seq::<char>::empty() },
                test,
            ).status;
            status == Status::Missing || status == Status::SkipUnsupported
        }),
{
    lemma_no_environments(reports, target);
    lemma_not_reported(
        reports,
        RowView { target, environment: Seq::<char>::empty() },
        test.id,
        0,
    );
}

proof fn lemma_environments(reports: Seq<ReportView>, target: Seq<char>)
    ensures
        environments_of(reports, target).no_duplicates(),
        forall|environment: Seq<char>|
            environments_of(reports, target).contains(environment) <==> exists|k: int|
                0 <= k < reports.len() && (#[trigger] reports[k]).target == target
                    && reports[k].environment == environment,
    decreases reports.len(),
{
    if reports.len() > 0 {
        let less = reports.drop_last();
        let earlier = environments_of(less, target);
        let all = environments_of(reports, target);
        lemma_environments(less, target);
        assert forall|environment: Seq<char>| all.contains(environment) <==> exists|k: int|
            0 <= k < reports.len() && (#[trigger] reports[k]).target == target
                && reports[k].environment == environment by {
            if all.contains(environment) {
                if earlier.contains(environment) {
                    let k = choose|k: int|
                        0 <= k < less.len() && (#[trigger] less[k]).target == target
                            && less[k].environment == environment;
                    assert(reports[k] == less[k]);
                } else {
                    assert(environment == reports.last().environment);
                    assert(reports[reports.len() - 1] == reports.last());
                }
            }
            if exists|k: int|
                0 <= k < reports.len() && (#[trigger] reports[k]).target == target
                    && reports[k].environment == environment {
                let k = choose|k: int|
                    0 <= k < reports.len() && (#[trigger] reports[k]).target == target
                        && reports[k].environment == environment;
                if k < less.len() {
                    assert(less[k] == reports[k]);
                    assert(earlier.contains(environment));
                    let at = choose|at: int| 0 <= at < earlier.len() && earlier[at] == environment;
                    assert(all[at] == environment);
                } else {
                    assert(reports.last() == reports[k]);
                    if !earlier.contains(environment) {
                        assert(all[all.len() - 1] == environment);
                    }
                }
            }
        }
    }
}

proof fn lemma_rows_of(reports: Seq<ReportView>, target: Seq<char>, row: RowView)
    ensures
        rows_of(reports, target).no_duplicates(),
        rows_of(reports, target).contains(row) <==> row.target == target && ({
            ||| exists|k: int|
                0 <= k < reports.len() && (#[trigger] reports[k]).target == row.target
                    && reports[k].environment == row.environment
            ||| row.environment.len() == 0 && forall|k: int|
                0 <= k < reports.len() ==> (#[trigger] reports[k]).target != row.target
        }),
{
    let environments = environments_of(reports, target);
    let rows = rows_of(reports, target);
    lemma_environments(reports, target);
    if environments.len() == 0 {
        if forall|k: int| 0 <= k < reports.len() ==> (#[trigger] reports[k]).target != target {
        } else {
            let k = choose|k: int|
                0 <= k < reports.len() && (#[trigger] reports[k]).target == target;
            assert(environments.contains(reports[k].environment));
        }
        assert(rows[0] == RowView { target, environment: Seq::<char>::empty() });
        if row.target == target && row.environment.len() == 0 {
            assert(row.environment =~= Seq::<char>::empty());
            assert(rows[0] == row);
        }
        assert forall|k: int|
            0 <= k < reports.len() && (#[trigger] reports[k]).target == target implies false by {
            assert(environments.contains(reports[k].environment));
        }
    } else {
        assert(environments.contains(environments[0]));
        assert forall|a: int, b: int|
            0 <= a < rows.len() && 0 <= b < rows.len() && a != b implies rows[a] != rows[b] by {
            assert(rows[a].environment == environments[a]);
            assert(rows[b].environment == environments[b]);
        }
        if rows.contains(row) {
            let at = choose|at: int| 0 <= at < rows.len() && rows[at] == row;
            assert(environments[at] == row.environment);
            assert(environments.contains(row.environment));
        }
        if row.target == target && environments.contains(row.environment) {
            let at = choose|at: int|
                0 <= at < environments.len() && environments[at] == row.environment;
            assert(rows[at] == row);
        }
    }
}

proof fn lemma_declared_rows(manifests: Seq<ManifestView>, reports: Seq<ReportView>, row: RowView)
    ensures
        declared_rows(manifests, reports).contains(row) <==> (exists|i: int|
            0 <= i < manifests.len() && (#[trigger] manifests[i]).target == row.target) && ({
            ||| exists|k: int|
                0 <= k < reports.len() && (#[trigger] reports[k]).target == row.target
                    && reports[k].environment == row.environment
            ||| row.environment.len() == 0 && forall|k: int|
                0 <= k < reports.len() ==> (#[trigger] reports[k]).target != row.target
        }),
    decreases manifests.len(),
{
    if manifests.len() > 0 {
        let less = manifests.drop_last();
        let earlier = declared_rows(less, reports);
        let added = rows_of(reports, manifests.last().target);
        lemma_declared_rows(less, reports, row);
        lemma_rows_of(reports, manifests.last().target, row);
        lemma_contains_either(earlier, added, row);
        if exists|i: int| 0 <= i < manifests.len() && (#[trigger] manifests[i]).target
            == row.target {
            let i = choose|i: int|
                0 <= i < manifests.len() && (#[trigger] manifests[i]).target == row.target;
            if i < less.len() {
                assert(less[i] == manifests[i]);
            } else {
                assert(manifests.last() == manifests[i]);
            }
        }
        if exists|i: int| 0 <= i < less.len() && (#[trigger] less[i]).target == row.target {
            let i = choose|i: int| 0 <= i < less.len() && (#[trigger] less[i]).target == row.target;
            assert(manifests[i] == less[i]);
        }
        assert(manifests[manifests.len() - 1] == manifests.last());
    }
}

proof fn lemma_contains_either<A>(one: Seq<A>, two: Seq<A>, item: A)
    ensures
        (one + two).contains(item) <==> one.contains(item) || two.contains(item),
{
    let both = one + two;
    if one.contains(item) {
        let k = choose|k: int| 0 <= k < one.len() && one[k] == item;
        assert(both[k] == item);
    }
    if two.contains(item) {
        let k = choose|k: int| 0 <= k < two.len() && two[k] == item;
        assert(both[one.len() + k] == item);
    }
    if both.contains(item) {
        let k = choose|k: int| 0 <= k < both.len() && both[k] == item;
        if k < one.len() {
            assert(one[k] == item);
        } else {
            assert(two[k - one.len()] == item);
        }
    }
}

proof fn lemma_undeclared_rows(
    manifests: Seq<ManifestView>,
    reports: Seq<ReportView>,
    row: RowView,
)
    ensures
        undeclared_rows(manifests, reports).no_duplicates(),
        undeclared_rows(manifests, reports).contains(row) <==> (forall|i: int|
            0 <= i < manifests.len() ==> (#[trigger] manifests[i]).target != row.target) && exists|
            k: int,
        |
            0 <= k < reports.len() && (#[trigger] reports[k]).target == row.target
                && reports[k].environment == row.environment,
    decreases reports.len(),
{
    if reports.len() > 0 {
        let less = reports.drop_last();
        let earlier = undeclared_rows(manifests, less);
        let all = undeclared_rows(manifests, reports);
        let last = RowView {
            target: reports.last().target,
            environment: reports.last().environment,
        };
        lemma_undeclared_rows(manifests, less, row);
        policy_is_the_first_declared(manifests, reports.last().target);
        lemma_contains_either(earlier, seq![last], row);
        assert(seq![last][0] == last);
        if all != earlier {
            assert(all =~= earlier + seq![last]);
        }
        assert(reports[reports.len() - 1] == reports.last());
        if exists|k: int|
            0 <= k < less.len() && (#[trigger] less[k]).target == row.target && less[k].environment
                == row.environment {
            let k = choose|k: int|
                0 <= k < less.len() && (#[trigger] less[k]).target == row.target
                    && less[k].environment == row.environment;
            assert(reports[k] == less[k]);
        }
        if exists|k: int|
            0 <= k < reports.len() && (#[trigger] reports[k]).target == row.target
                && reports[k].environment == row.environment {
            let k = choose|k: int|
                0 <= k < reports.len() && (#[trigger] reports[k]).target == row.target
                    && reports[k].environment == row.environment;
            if k < less.len() {
                assert(less[k] == reports[k]);
            } else {
                assert(row == last);
            }
        }
    }
}

/// A run has a row for every target and environment that was reported, declared or not, and
/// for every declared target that was not reported one without an environment; and no other.
pub proof fn rows_are_exact(manifests: Seq<ManifestView>, reports: Seq<ReportView>, row: RowView)
    ensures
        rows_for(manifests, reports).contains(row) <==> {
            ||| exists|k: int|
                0 <= k < reports.len() && (#[trigger] reports[k]).target == row.target
                    && reports[k].environment == row.environment
            ||| {
                &&& row.environment.len() == 0
                &&& exists|i: int|
                    0 <= i < manifests.len() && (#[trigger] manifests[i]).target == row.target
                &&& forall|k: int|
                    0 <= k < reports.len() ==> (#[trigger] reports[k]).target != row.target
            }
        },
{
    lemma_declared_rows(manifests, reports, row);
    lemma_undeclared_rows(manifests, reports, row);
    lemma_contains_either(
        declared_rows(manifests, reports),
        undeclared_rows(manifests, reports),
        row,
    );
}

proof fn lemma_declared_rows_differ(manifests: Seq<ManifestView>, reports: Seq<ReportView>)
    requires
        forall|i: int, j: int|
            0 <= i < j < manifests.len() ==> (#[trigger] manifests[i]).target != (
            #[trigger] manifests[j]).target,
    ensures
        declared_rows(manifests, reports).no_duplicates(),
    decreases manifests.len(),
{
    if manifests.len() > 0 {
        let less = manifests.drop_last();
        let earlier = declared_rows(less, reports);
        let last = manifests.last();
        let added = rows_of(reports, last.target);
        assert forall|i: int, j: int| 0 <= i < j < less.len() implies (#[trigger] less[i]).target
            != (#[trigger] less[j]).target by {
            assert(less[i] == manifests[i] && less[j] == manifests[j]);
        }
        lemma_declared_rows_differ(less, reports);
        lemma_rows_of(reports, last.target, added[0]);
        assert forall|a: int, b: int|
            0 <= a < earlier.len() && 0 <= b < added.len() implies earlier[a] != added[b] by {
            let row = added[b];
            assert(added.contains(row));
            lemma_rows_of(reports, last.target, row);
            lemma_declared_rows(less, reports, row);
            if earlier[a] == row {
                assert(earlier.contains(row));
                let i = choose|i: int|
                    0 <= i < less.len() && (#[trigger] less[i]).target == row.target;
                assert(less[i] == manifests[i]);
                assert(manifests[manifests.len() - 1] == last);
            }
        }
        let all = earlier + added;
        assert forall|a: int, b: int|
            0 <= a < all.len() && 0 <= b < all.len() && a != b implies all[a] != all[b] by {
            if a < earlier.len() && b >= earlier.len() {
                assert(earlier[a] != added[b - earlier.len()]);
            }
            if b < earlier.len() && a >= earlier.len() {
                assert(earlier[b] != added[a - earlier.len()]);
            }
        }
    }
}

/// Where every target is declared once, no row occurs twice.
pub proof fn rows_differ(manifests: Seq<ManifestView>, reports: Seq<ReportView>)
    requires
        forall|i: int, j: int|
            0 <= i < j < manifests.len() ==> (#[trigger] manifests[i]).target != (
            #[trigger] manifests[j]).target,
    ensures
        rows_for(manifests, reports).no_duplicates(),
{
    let one = declared_rows(manifests, reports);
    let two = undeclared_rows(manifests, reports);
    lemma_declared_rows_differ(manifests, reports);
    let any = RowView { target: seq![], environment: seq![] };
    lemma_undeclared_rows(manifests, reports, any);
    assert forall|a: int, b: int| 0 <= a < one.len() && 0 <= b < two.len() implies one[a]
        != two[b] by {
        let row = two[b];
        assert(two.contains(row));
        lemma_undeclared_rows(manifests, reports, row);
        lemma_declared_rows(manifests, reports, row);
        if one[a] == row {
            assert(one.contains(row));
        }
    }
    let all = one + two;
    assert forall|a: int, b: int|
        0 <= a < all.len() && 0 <= b < all.len() && a != b implies all[a] != all[b] by {
        if a < one.len() && b >= one.len() {
            assert(one[a] != two[b - one.len()]);
        }
        if b < one.len() && a >= one.len() {
            assert(one[b] != two[a - one.len()]);
        }
    }
}

proof fn lemma_first_at<A>(list: Seq<A>, wanted: A, from: int)
    requires
        0 <= from <= list.len(),
        forall|k: int| 0 <= k < from ==> list[k] != wanted,
    ensures
        ({
            let at = first_at(list, wanted, from);
            &&& 0 <= at <= list.len()
            &&& at < list.len() <==> list.contains(wanted)
            &&& at < list.len() ==> list[at] == wanted
            &&& forall|k: int| 0 <= k < at ==> list[k] != wanted
        }),
    decreases list.len() - from,
{
    if from < list.len() && list[from] != wanted {
        lemma_first_at(list, wanted, from + 1);
    }
}

/// Every cell can be looked up by its row and its test, and nothing else can: the cell found
/// is the one at the first such row and the first such test.
pub proof fn cell_lookup_is_exact(matrix: MatrixView, row: RowView, test: Seq<char>)
    ensures
        cell_at(matrix, row, test) is Some <==> matrix.rows.contains(row) && matrix.tests.contains(
            test,
        ),
        forall|i: int, j: int|
            0 <= i < matrix.rows.len() && 0 <= j < matrix.tests.len() && matrix.rows[i] == row
                && matrix.tests[j] == test && (forall|k: int|
                0 <= k < i ==> #[trigger] matrix.rows[k] != row) && (forall|k: int|
                0 <= k < j ==> #[trigger] matrix.tests[k] != test) ==> cell_at(matrix, row, test)
                == Some(#[trigger] matrix.cells[i][j]),
{
    lemma_first_at(matrix.rows, row, 0);
    lemma_first_at(matrix.tests, test, 0);
    assert forall|i: int, j: int|
        0 <= i < matrix.rows.len() && 0 <= j < matrix.tests.len() && matrix.rows[i] == row
            && matrix.tests[j] == test && (forall|k: int|
            0 <= k < i ==> #[trigger] matrix.rows[k] != row) && (forall|k: int|
            0 <= k < j ==> #[trigger] matrix.tests[k] != test) implies cell_at(matrix, row, test)
        == Some(#[trigger] matrix.cells[i][j]) by {
        let a = first_at(matrix.rows, row, 0);
        let b = first_at(matrix.tests, test, 0);
        assert(matrix.rows.contains(row));
        assert(matrix.tests.contains(test));
        assert(matrix.rows[a] == row && matrix.tests[b] == test);
        assert(a == i && b == j);
    }
}

/// The cells of a run's matrix are those of its rows and of the registered tests, in their
/// places.
pub proof fn matrix_holds_every_cell(
    tests: Seq<TestView>,
    manifests: Seq<ManifestView>,
    reports: Seq<ReportView>,
    i: int,
    j: int,
)
    requires
        0 <= i < rows_for(manifests, reports).len(),
        0 <= j < tests.len(),
    ensures
        ({
            let matrix = matrix_of(tests, manifests, reports);
            &&& matrix.wf()
            &&& matrix.rows == rows_for(manifests, reports)
            &&& matrix.tests.len() == tests.len()
            &&& matrix.tests[j] == tests[j].id
            &&& matrix.cells[i][j] == cell_of(manifests, reports, matrix.rows[i], tests[j])
        }),
{
}

proof fn lemma_failures_of_row(matrix: MatrixView, i: int, n: int, failure: FailureView)
    ensures
        failures_of_row(matrix, i, n).contains(failure) <==> exists|j: int|
            0 <= j < n && fails((#[trigger] matrix.cells[i][j]).status) && failure == failure_at(
                matrix,
                i,
                j,
            ),
    decreases n,
{
    if n > 0 {
        let earlier = failures_of_row(matrix, i, n - 1);
        let last = failure_at(matrix, i, n - 1);
        lemma_failures_of_row(matrix, i, n - 1, failure);
        lemma_contains_either(earlier, seq![last], failure);
        assert(seq![last][0] == last);
        assert(earlier.push(last) =~= earlier + seq![last]);
        if fails(matrix.cells[i][n - 1].status) {
            assert(failures_of_row(matrix, i, n) =~= earlier + seq![last]);
        }
        if exists|j: int|
            0 <= j < n && fails((#[trigger] matrix.cells[i][j]).status) && failure == failure_at(
                matrix,
                i,
                j,
            ) {
            let j = choose|j: int|
                0 <= j < n && fails((#[trigger] matrix.cells[i][j]).status) && failure
                    == failure_at(matrix, i, j);
            if j < n - 1 {
                assert(fails(matrix.cells[i][j].status));
            }
        }
    }
}

proof fn lemma_failures_in(matrix: MatrixView, n: int, failure: FailureView)
    ensures
        failures_in(matrix, n).contains(failure) <==> exists|i: int, j: int|
            0 <= i < n && 0 <= j < matrix.tests.len() && fails(
                (#[trigger] matrix.cells[i][j]).status,
            ) && failure == failure_at(matrix, i, j),
    decreases n,
{
    if n > 0 {
        let tests = matrix.tests.len() as int;
        lemma_failures_in(matrix, n - 1, failure);
        lemma_failures_of_row(matrix, n - 1, tests, failure);
        lemma_contains_either(
            failures_in(matrix, n - 1),
            failures_of_row(matrix, n - 1, tests),
            failure,
        );
        if exists|i: int, j: int|
            0 <= i < n && 0 <= j < matrix.tests.len() && fails(
                (#[trigger] matrix.cells[i][j]).status,
            ) && failure == failure_at(matrix, i, j) {
            let (i, j) = choose|i: int, j: int|
                0 <= i < n && 0 <= j < matrix.tests.len() && fails(
                    (#[trigger] matrix.cells[i][j]).status,
                ) && failure == failure_at(matrix, i, j);
            if i < n - 1 {
                assert(fails(matrix.cells[i][j].status));
            } else {
                assert(fails(matrix.cells[n - 1][j].status));
            }
        }
    }
}

/// The failures a run lists are its cells that failed or passed against expectation, with
/// their rows and tests, and no others.
pub proof fn failures_are_exact(matrix: MatrixView, failure: FailureView)
    ensures
        failures_in(matrix, matrix.rows.len() as int).contains(failure) <==> exists|i: int, j: int|
            0 <= i < matrix.rows.len() && 0 <= j < matrix.tests.len() && failure.cell
                == #[trigger] matrix.cells[i][j] && failure.row == matrix.rows[i] && failure.test
                == matrix.tests[j] && (failure.cell.status == Status::Fail || failure.cell.status
                == Status::UnexpectedPass),
{
    lemma_failures_in(matrix, matrix.rows.len() as int, failure);
    if exists|i: int, j: int|
        0 <= i < matrix.rows.len() && 0 <= j < matrix.tests.len() && failure.cell
            == #[trigger] matrix.cells[i][j] && failure.row == matrix.rows[i] && failure.test
            == matrix.tests[j] && (failure.cell.status == Status::Fail || failure.cell.status
            == Status::UnexpectedPass) {
        let (i, j) = choose|i: int, j: int|
            0 <= i < matrix.rows.len() && 0 <= j < matrix.tests.len() && failure.cell
                == #[trigger] matrix.cells[i][j] && failure.row == matrix.rows[i] && failure.test
                == matrix.tests[j] && (failure.cell.status == Status::Fail || failure.cell.status
                == Status::UnexpectedPass);
        assert(fails(matrix.cells[i][j].status));
        assert(failure == failure_at(matrix, i, j));
    }
}

/// The tests a row misses are those whose cells are missing, and no others; the row is warned
/// of exactly if it has some and was run at all.
pub proof fn missing_is_exact(matrix: MatrixView, i: int, n: int, test: Seq<char>)
    requires
        0 <= n,
    ensures
        missing_in(matrix, i, n).contains(test) <==> exists|j: int|
            0 <= j < n && (#[trigger] matrix.cells[i][j]).status == Status::Missing && test
                == matrix.tests[j],
        missing_in(matrix, i, n).len() > 0 <==> exists|j: int|
            0 <= j < n && (#[trigger] matrix.cells[i][j]).status == Status::Missing,
        warning_of(matrix, i) is Some <==> matrix.rows[i].environment.len() > 0 && missing_in(
            matrix,
            i,
            matrix.tests.len() as int,
        ).len() > 0,
    decreases n,
{
    if n > 0 {
        let earlier = missing_in(matrix, i, n - 1);
        let last = matrix.tests[n - 1];
        missing_is_exact(matrix, i, n - 1, test);
        lemma_contains_either(earlier, seq![last], test);
        assert(seq![last][0] == last);
        assert(earlier.push(last) =~= earlier + seq![last]);
        if exists|j: int|
            0 <= j < n && (#[trigger] matrix.cells[i][j]).status == Status::Missing && test
                == matrix.tests[j] {
            let j = choose|j: int|
                0 <= j < n && (#[trigger] matrix.cells[i][j]).status == Status::Missing && test
                    == matrix.tests[j];
            if j < n - 1 {
                assert(matrix.cells[i][j].status == Status::Missing);
            }
        }
        if exists|j: int| 0 <= j < n && (#[trigger] matrix.cells[i][j]).status
            == Status::Missing {
            let j = choose|j: int|
                0 <= j < n && (#[trigger] matrix.cells[i][j]).status == Status::Missing;
            if j < n - 1 {
                assert(matrix.cells[i][j].status == Status::Missing);
            }
        }
    }
}

/// A report passes the check exactly if every result in it is for a registered test; what it
/// is refused for are the ids that are not.
pub proof fn unregistered_is_exact(
    tests: Seq<TestView>,
    results: Seq<(Seq<char>, RawStatus, Option<Seq<char>>)>,
    id: Seq<char>,
)
    ensures
        unregistered_in(tests, results).contains(id) <==> (exists|k: int|
            0 <= k < results.len() && (#[trigger] results[k]).0 == id) && forall|m: int|
            0 <= m < tests.len() ==> (#[trigger] tests[m]).id != id,
    decreases results.len(),
{
    if results.len() > 0 {
        let less = results.drop_last();
        let earlier = unregistered_in(tests, less);
        let last = results.last().0;
        unregistered_is_exact(tests, less, id);
        lemma_contains_either(earlier, seq![last], id);
        assert(seq![last][0] == last);
        assert(earlier.push(last) =~= earlier + seq![last]);
        assert(results[results.len() - 1] == results.last());
        if exists|k: int| 0 <= k < results.len() && (#[trigger] results[k]).0 == id {
            let k = choose|k: int| 0 <= k < results.len() && (#[trigger] results[k]).0 == id;
            if k < less.len() {
                assert(less[k] == results[k]);
            }
        }
        if exists|k: int| 0 <= k < less.len() && (#[trigger] less[k]).0 == id {
            let k = choose|k: int| 0 <= k < less.len() && (#[trigger] less[k]).0 == id;
            assert(results[k] == less[k]);
        }
    }
}

/// A row is named by its target, and by its environment exactly if it has one.
pub proof fn rows_are_named(row: RowView)
    ensures
        row.environment.len() == 0 ==> row_label(row) == row.target,
        row.environment.len() > 0 ==> row_label(row) == row.target + " ["@ + row.environment + "]"@,
{
}

/// A status that fails the run is marked unlike every other, and so are a pass, a failure that
/// is expected and a result that is missing.
pub proof fn marks_tell_statuses_apart(status: Status, other: Status)
    requires
        mark(status) == mark(other),
    ensures
        status == other || (status == Status::Skip && other == Status::SkipUnsupported) || (status
            == Status::SkipUnsupported && other == Status::Skip),
        fails(status) <==> fails(other),
{
    reveal_strlit("pass");
    reveal_strlit("FAIL");
    reveal_strlit("skip");
    reveal_strlit("xfail");
    reveal_strlit("UNEXPECTED-PASS");
    reveal_strlit("—");
    assert("pass"@[0] == 'p' && "FAIL"@[0] == 'F' && "skip"@[0] == 's' && "xfail"@[0] == 'x');
    assert("UNEXPECTED-PASS"@[0] == 'U' && "—"@[0] == '—');
}

/// The line of a failing cell names its row, its test and its status, and gives its detail.
pub proof fn failure_line_says_it_all(failure: FailureView)
    ensures
        ({
            let head = "  "@ + row_label(failure.row) + " / "@ + failure.test + ": "@ + mark(
                failure.cell.status,
            );
            &&& failure.cell.detail is None ==> failure_line(failure) == head
            &&& failure.cell.detail matches Some(detail) ==> failure_line(failure) == head
                + " — "@ + detail
        }),
{
}

/// The line of a test has a column for each row, in order, with the mark of the cell of that row
/// and that test; the heading has a column for each row, in the same order, with its name.
pub proof fn table_has_each_cell_in_its_place(matrix: MatrixView, j: int, i: int, n: int)
    requires
        0 <= i < n,
    ensures
        test_line(matrix, j, 0) == "| "@ + matrix.tests[j] + " |"@,
        test_line(matrix, j, i + 1) == test_line(matrix, j, i) + " "@ + mark(
            matrix.cells[i][j].status,
        ) + " |"@,
        test_line(matrix, j, i + 1).is_prefix_of(test_line(matrix, j, n)),
        heading(matrix, i + 1) == heading(matrix, i) + " "@ + row_label(matrix.rows[i]) + " |"@,
        heading(matrix, i + 1).is_prefix_of(heading(matrix, n)),
        ruling(i + 1) == ruling(i) + " --- |"@,
    decreases n,
{
    if i + 1 < n {
        table_has_each_cell_in_its_place(matrix, j, i, n - 1);
        let shorter = test_line(matrix, j, n - 1);
        assert(test_line(matrix, j, i + 1) =~= test_line(matrix, j, n).take(
            test_line(matrix, j, i + 1).len() as int,
        ));
        assert(heading(matrix, i + 1) =~= heading(matrix, n).take(
            heading(matrix, i + 1).len() as int,
        ));
    }
}

/// The table is its heading, a rule under it, and then the lines of the tests in order.
pub proof fn table_has_each_test_in_order(matrix: MatrixView, j: int, n: int)
    requires
        0 <= j < n,
    ensures
        rendered(matrix, 0) == heading(matrix, matrix.rows.len() as int) + "\n"@ + ruling(
            matrix.rows.len() as int,
        ) + "\n"@,
        rendered(matrix, j + 1) == rendered(matrix, j) + test_line(
            matrix,
            j,
            matrix.rows.len() as int,
        ) + "\n"@,
        rendered(matrix, j + 1).is_prefix_of(rendered(matrix, n)),
    decreases n,
{
    if j + 1 < n {
        table_has_each_test_in_order(matrix, j, n - 1);
        assert(rendered(matrix, j + 1) =~= rendered(matrix, n).take(
            rendered(matrix, j + 1).len() as int,
        ));
    }
}

/// A report that an adapter writes is one that the run reads: the name of its file, whatever its
/// stem, is that of a report.
pub proof fn written_reports_are_read(stem: Seq<char>, name: Seq<char>)
    ensures
        stem.len() > 0 ==> is_report(stem + ".json"@),
        is_report(name) <==> exists|head: Seq<char>|
            head.len() > 0 && name == #[trigger] (head + ".json"@),
{
    reveal_strlit(".json");
    let whole = stem + ".json"@;
    assert(whole.skip(whole.len() - 5) =~= ".json"@);
    if is_report(name) {
        let head = name.take(name.len() - 5);
        assert(name =~= head + ".json"@);
    }
    if exists|head: Seq<char>| head.len() > 0 && name == #[trigger] (head + ".json"@) {
        let head = choose|head: Seq<char>| head.len() > 0 && name == #[trigger] (head + ".json"@);
        assert(name.skip(name.len() - 5) =~= ".json"@);
    }
}

} // verus!
