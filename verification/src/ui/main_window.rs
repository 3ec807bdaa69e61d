use vstd::prelude::*;

use crate::app::{AppState, ColumnReport, DiagnosisReport, FileInfo, HealthScore};
use crate::diagnosis::engine::{batch_fits, describes, diagnose_batch, BatchData, ColumnData};

verus! {

// ─── Overall score ───────────────────────────────────────────────────────────

/// Both grades of the column are good.
pub open spec fn column_is_good(r: ColumnReport) -> bool {
    r.health_status.null_status == HealthScore::Good && r.health_status.duplicate_status
        == HealthScore::Good
}

/// Some grade of the column is dangerous.
pub open spec fn column_is_dangerous(r: ColumnReport) -> bool {
    r.health_status.null_status == HealthScore::Danger || r.health_status.duplicate_status
        == HealthScore::Danger
}

/// The score of a file: good when every column is good, else dangerous when
/// some column is dangerous, else a warning.
pub open spec fn overall_score_of(reports: Seq<ColumnReport>) -> HealthScore {
    if forall|i: int| 0 <= i < reports.len() ==> column_is_good(#[trigger] reports[i]) {
        HealthScore::Good
    } else if exists|i: int| 0 <= i < reports.len() && column_is_dangerous(#[trigger] reports[i]) {
        HealthScore::Danger
    } else {
        HealthScore::Warning
    }
}

/// The score of a file from the reports of its columns.
pub fn overall_score(reports: &[ColumnReport]) -> (score: HealthScore)
    ensures
        score == overall_score_of(reports@),
{
    let n = reports.len();
    let mut all_good = true;
    let mut any_danger = false;
    let mut i: usize = 0;
    while i < n
        invariant
            n == reports@.len(),
            i <= n,
            all_good == forall|k: int| 0 <= k < i ==> column_is_good(#[trigger] reports@[k]),
            any_danger == exists|k: int| 0 <= k < i && column_is_dangerous(#[trigger] reports@[k]),
        decreases n - i,
    {
        let status = reports[i].health_status;
        let good = status.null_status == HealthScore::Good && status.duplicate_status
            == HealthScore::Good;
        let danger = status.null_status == HealthScore::Danger || status.duplicate_status
            == HealthScore::Danger;
        assert(good == column_is_good(reports@[i as int]));
        assert(danger == column_is_dangerous(reports@[i as int]));
        all_good = all_good && good;
        any_danger = any_danger || danger;
        i = i + 1;
    }
    if all_good {
        HealthScore::Good
    } else if any_danger {
        HealthScore::Danger
    } else {
        HealthScore::Warning
    }
}

// ─── Report of a file ────────────────────────────────────────────────────────

/// Every column of every batch, with the row count of its batch, in order.
pub open spec fn all_columns(batches: Seq<BatchData>) -> Seq<(usize, ColumnData)>
    decreases batches.len(),
{
    if batches.len() == 0 {
        seq![]
    } else {
        let last = batches.last();
        all_columns(batches.drop_last()) + last.columns@.map_values(
            |c: ColumnData| (last.num_rows, c),
        )
    }
}

/// The number of columns in the first `b` batches.
pub open spec fn columns_before(batches: Seq<BatchData>, b: int) -> nat
    decreases b,
{
    if b <= 0 {
        0
    } else {
        columns_before(batches, b - 1) + batches[b - 1].columns@.len()
    }
}

/// The listing of all columns holds, for each batch `b` and each of its
/// columns `c`, that column with the row count of batch `b` itself, at
/// position (columns of the batches before `b`) + `c`; and nothing else.
pub proof fn lemma_all_columns_positions(batches: Seq<BatchData>)
    ensures
        all_columns(batches).len() == columns_before(batches, batches.len() as int),
        forall|b: int, c: int|
            0 <= b < batches.len() && 0 <= c < batches[b].columns@.len() ==> #[trigger] all_columns(
                batches,
            )[columns_before(batches, b) + c] == (
                batches[b].num_rows,
                #[trigger] batches[b].columns@[c],
            ),
    decreases batches.len(),
{
    if batches.len() > 0 {
        let prev = batches.drop_last();
        lemma_all_columns_positions(prev);
        lemma_columns_before_prefix(batches, prev, prev.len() as int);
        let last = batches.last();
        let all = all_columns(batches);
        let head = all_columns(prev);
        assert forall|b: int, c: int|
            0 <= b < batches.len() && 0 <= c < batches[b].columns@.len() implies #[trigger] all_columns(
                batches,
            )[columns_before(batches, b) + c] == (
                batches[b].num_rows,
                #[trigger] batches[b].columns@[c],
            ) by {
            lemma_columns_before_prefix(batches, prev, b);
            if b < prev.len() {
                assert(prev[b] == batches[b]);
                lemma_columns_before_monotone(prev, b + 1, prev.len() as int);
                assert(all[columns_before(batches, b) + c] == head[columns_before(prev, b) + c]);
            } else {
                assert(b == prev.len());
            }
        }
    }
}

/// `columns_before` only looks at the batches before `b`.
proof fn lemma_columns_before_prefix(batches: Seq<BatchData>, prefix: Seq<BatchData>, b: int)
    requires
        prefix.len() <= batches.len(),
        forall|i: int| 0 <= i < prefix.len() ==> prefix[i] == batches[i],
        0 <= b <= prefix.len(),
    ensures
        columns_before(batches, b) == columns_before(prefix, b),
    decreases b,
{
    if b > 0 {
        lemma_columns_before_prefix(batches, prefix, b - 1);
    }
}

/// `columns_before` grows with `b`.
proof fn lemma_columns_before_monotone(batches: Seq<BatchData>, a: int, b: int)
    requires
        0 <= a <= b <= batches.len(),
    ensures
        columns_before(batches, a) <= columns_before(batches, b),
    decreases b - a,
{
    if a < b {
        lemma_columns_before_monotone(batches, a, b - 1);
    }
}

/// Every batch fits.
pub open spec fn batches_fit(batches: Seq<BatchData>) -> bool {
    forall|i: int| 0 <= i < batches.len() ==> batch_fits(#[trigger] batches[i])
}

/// The report of a file: the diagnosis of every column of every batch read
/// from it, in order, with the overall score of those columns.
pub fn build_diagnosis_report(file_info: FileInfo, batches: &Vec<BatchData>) -> (report:
    DiagnosisReport)
    requires
        batches_fit(batches@),
    ensures
        report.file_info == file_info,
        report.column_reports@.len() == all_columns(batches@).len(),
        forall|k: int|
            0 <= k < report.column_reports@.len() ==> describes(
                #[trigger] report.column_reports@[k],
                all_columns(batches@)[k].0,
                all_columns(batches@)[k].1,
            ),
        forall|b: int, c: int|
            0 <= b < batches@.len() && 0 <= c < batches@[b].columns@.len() ==> describes(
                report.column_reports@[columns_before(batches@, b) + c],
                batches@[b].num_rows,
                #[trigger] batches@[b].columns@[c],
            ),
        report.overall_score == overall_score_of(report.column_reports@),
{
    let mut all_column_reports: Vec<ColumnReport> = Vec::new();
    let n = batches.len();
    let mut i: usize = 0;
    while i < n
        invariant
            n == batches@.len(),
            batches_fit(batches@),
            i <= n,
            all_column_reports@.len() == all_columns(batches@.take(i as int)).len(),
            forall|k: int|
                0 <= k < all_column_reports@.len() ==> describes(
                    #[trigger] all_column_reports@[k],
                    all_columns(batches@.take(i as int))[k].0,
                    all_columns(batches@.take(i as int))[k].1,
                ),
        decreases n - i,
    {
        let ghost before = all_column_reports@;
        let ghost prev = all_columns(batches@.take(i as int));
        assert(batches@.take(i + 1).drop_last() =~= batches@.take(i as int));
        assert(batch_fits(batches@[i as int]));
        let mut column_reports = diagnose_batch(&batches[i]);
        let ghost added = column_reports@;
        all_column_reports.append(&mut column_reports);
        let ghost cols = all_columns(batches@.take(i + 1));
        assert(cols == prev + batches@[i as int].columns@.map_values(
            |c: ColumnData| (batches@[i as int].num_rows, c),
        ));
        assert forall|k: int| 0 <= k < all_column_reports@.len() implies describes(
            #[trigger] all_column_reports@[k],
            cols[k].0,
            cols[k].1,
        ) by {
            if k < before.len() {
                assert(all_column_reports@[k] == before[k]);
                assert(cols[k] == prev[k]);
            } else {
                assert(all_column_reports@[k] == added[k - before.len()]);
                assert(cols[k] == (batches@[i as int].num_rows, batches@[i as int].columns@[k
                    - before.len()]));
            }
        }
        i = i + 1;
    }
    assert(batches@.take(n as int) =~= batches@);
    proof {
        lemma_all_columns_positions(batches@);
        assert forall|b: int, c: int|
            0 <= b < batches@.len() && 0 <= c < batches@[b].columns@.len() implies describes(
                all_column_reports@[columns_before(batches@, b) + c],
                batches@[b].num_rows,
                #[trigger] batches@[b].columns@[c],
            ) by {
            let k = columns_before(batches@, b) + c;
            lemma_columns_before_monotone(batches@, b + 1, batches@.len() as int);
            assert(all_columns(batches@)[k] == (batches@[b].num_rows, batches@[b].columns@[c]));
            assert(describes(all_column_reports@[k], all_columns(batches@)[k].0, all_columns(batches@)[k].1));
        }
    }
    let overall_score = overall_score(all_column_reports.as_slice());
    DiagnosisReport { overall_score, file_info, column_reports: all_column_reports }
}

// ─── Colors and labels ───────────────────────────────────────────────────────

/// The color (as `0xRRGGBB`) in which a grade is shown.
pub open spec fn health_color_of(score: HealthScore) -> u32 {
    match score {
        HealthScore::Good => 0xa6e3a1,
        HealthScore::Warning => 0xf9e2af,
        HealthScore::Danger => 0xf38ba8,
    }
}

/// The color (as `0xRRGGBB`) in which a grade is shown: green, yellow or red.
pub fn health_color(score: &HealthScore) -> (color: u32)
    ensures
        color == health_color_of(*score),
        *score == HealthScore::Good ==> color == 0xa6e3a1,
        *score == HealthScore::Warning ==> color == 0xf9e2af,
        *score == HealthScore::Danger ==> color == 0xf38ba8,
{
    match score {
        HealthScore::Good => 0xa6e3a1,
        HealthScore::Warning => 0xf9e2af,
        HealthScore::Danger => 0xf38ba8,
    }
}

/// The label under which a file's overall score is shown.
pub fn score_label(score: &HealthScore) -> (label: &'static str)
    ensures
        *score == HealthScore::Good ==> label@ == "✅ Healthy"@,
        *score == HealthScore::Warning ==> label@ == "⚠️ Warning"@,
        *score == HealthScore::Danger ==> label@ == "❌ Issues Found"@,
{
    match score {
        HealthScore::Good => "✅ Healthy",
        HealthScore::Warning => "⚠️ Warning",
        HealthScore::Danger => "❌ Issues Found",
    }
}

/// A column is flagged when one of its grades is not good.
pub fn column_has_issues(col: &ColumnReport) -> (b: bool)
    ensures
        b == !column_is_good(*col),
{
    col.health_status.null_status != HealthScore::Good || col.health_status.duplicate_status
        != HealthScore::Good
}

// ─── Application state ───────────────────────────────────────────────────────

/// How a diagnosis run ended.
pub enum DiagnosisOutcome {
    /// The diagnosis produced a report.
    Finished(DiagnosisReport),
    /// The diagnosis failed with this message.
    Failed(String),
    /// The task that ran the diagnosis failed with this message.
    TaskFailed(String),
}

/// What the content area of the window shows.
#[derive(Debug, PartialEq, Eq)]
pub enum Screen {
    /// A diagnosis is running.
    Loading,
    /// The last diagnosis failed with this message.
    Error(String),
    /// The report of the last diagnosis.
    Report,
    /// Nothing was diagnosed yet.
    Empty,
}

/// The application: what it knows of the file, whether a diagnosis is
/// running, and the message of the last failure.
pub struct DataGuardApp {
    state: AppState,
    loading: bool,
    error_message: Option<String>,
}

/// The abstract state of the application.
pub struct AppView {
    pub state: AppState,
    pub loading: bool,
    pub error: Option<Seq<char>>,
}

/// The prefix of the message shown when the task that ran a diagnosis failed.
pub open spec fn task_error_prefix() -> Seq<char> {
    seq!['T', 'a', 's', 'k', ' ', 'e', 'r', 'r', 'o', 'r', ':', ' ']
}

/// The application once a diagnosis has started: loading, with no error shown.
pub open spec fn started(v: AppView) -> AppView {
    AppView { state: v.state, loading: true, error: None }
}

/// The application once a diagnosis has ended with `outcome`: no longer
/// loading; a report replaces the previous one, a failure becomes the shown
/// error (prefixed with `Task error: ` when the task itself failed).
pub open spec fn finished(v: AppView, outcome: DiagnosisOutcome) -> AppView {
    match outcome {
        DiagnosisOutcome::Finished(report) => AppView {
            state: AppState { diagnosis_report: Some(report), ..v.state },
            loading: false,
            error: v.error,
        },
        DiagnosisOutcome::Failed(msg) => AppView { state: v.state, loading: false, error: Some(msg@) },
        DiagnosisOutcome::TaskFailed(msg) => AppView {
            state: v.state,
            loading: false,
            error: Some(task_error_prefix() + msg@),
        },
    }
}

/// The application once `path` is chosen as the file to work on.
pub open spec fn with_file(v: AppView, path: std::path::PathBuf) -> AppView {
    AppView { state: AppState { file_path: Some(path), ..v.state }, ..v }
}

/// `screen` is what the content area shows in state `v`: the loading view
/// while a diagnosis runs, else the error if there is one, else the report if
/// there is one, else the empty view.
pub open spec fn shows(v: AppView, screen: Screen) -> bool {
    if v.loading {
        screen == Screen::Loading
    } else if v.error is Some {
        screen matches Screen::Error(m) && m@ == v.error->0
    } else if v.state.diagnosis_report is Some {
        screen == Screen::Report
    } else {
        screen == Screen::Empty
    }
}

/// Clones a path.
///
/// Trusted: the body calls std's `<PathBuf as Clone>::clone`; the contract
/// claims the clone is the same path.
#[verifier::external_body]
fn clone_path(path: &std::path::PathBuf) -> (c: std::path::PathBuf)
    ensures
        c == *path,
{
    path.clone()
}

impl View for DataGuardApp {
    type V = AppView;

    closed spec fn view(&self) -> AppView {
        AppView {
            state: self.state,
            loading: self.loading,
            error: match self.error_message {
                Some(m) => Some(m@),
                None => None,
            },
        }
    }
}

impl DataGuardApp {
    /// A fresh application: nothing known, nothing running, no error.
    pub fn new() -> (app: Self)
        ensures
            app@.state.file_path is None,
            app@.state.file_info is None,
            app@.state.diagnosis_report is None,
            !app@.loading,
            app@.error is None,
    {
        DataGuardApp { state: AppState::new(), loading: false, error_message: None }
    }

    /// The application's knowledge of the file.
    pub fn state(&self) -> (s: &AppState)
        ensures
            *s == self@.state,
    {
        &self.state
    }

    /// Whether a diagnosis is running.
    pub fn loading(&self) -> (b: bool)
        ensures
            b == self@.loading,
    {
        self.loading
    }

    /// The message of the last failure, if it is still shown.
    pub fn error_message(&self) -> (m: Option<String>)
        ensures
            m is Some <==> self@.error is Some,
            m matches Some(s) ==> s@ == self@.error->0,
    {
        match &self.error_message {
            Some(s) => Some(s.clone()),
            None => None,
        }
    }

    /// Marks a diagnosis as started.
    pub fn begin_diagnosis(&mut self)
        ensures
            final(self)@ == started(old(self)@),
    {
        self.loading = true;
        self.error_message = None;
    }

    /// Records how a diagnosis ended.
    pub fn finish_diagnosis(&mut self, outcome: DiagnosisOutcome)
        ensures
            final(self)@ == finished(old(self)@, outcome),
    {
        let ghost o = outcome;
        match outcome {
            DiagnosisOutcome::Finished(report) => {
                self.state.diagnosis_report = Some(report);
                self.loading = false;
            },
            DiagnosisOutcome::Failed(msg) => {
                self.error_message = Some(msg);
                self.loading = false;
            },
            DiagnosisOutcome::TaskFailed(msg) => {
                let prefix = String::from_str("Task error: ");
                proof {
                    reveal_strlit("Task error: ");
                }
                let text = prefix.concat(msg.as_str());
                assert(text@ =~= task_error_prefix() + msg@);
                self.error_message = Some(text);
                self.loading = false;
            },
        }
        assert(self@ =~= finished(old(self)@, o));
    }

    /// Takes `path` as the file to work on and starts diagnosing it.
    pub fn select_file(&mut self, path: std::path::PathBuf)
        ensures
            final(self)@ == started(with_file(old(self)@, path)),
            final(self)@.state.file_path == Some(path),
            final(self)@.state.file_info == old(self)@.state.file_info,
            final(self)@.state.diagnosis_report == old(self)@.state.diagnosis_report,
            final(self)@.loading,
            final(self)@.error is None,
    {
        self.state.file_path = Some(path);
        self.begin_diagnosis();
    }

    /// Starts diagnosing the chosen file, if there is one, and returns its path;
    /// without a chosen file nothing changes.
    pub fn request_diagnosis(&mut self) -> (path: Option<std::path::PathBuf>)
        ensures
            path == old(self)@.state.file_path,
            path is Some ==> final(self)@ == started(old(self)@),
            path is None ==> final(self)@ == old(self)@,
    {
        match &self.state.file_path {
            Some(p) => {
                let path = clone_path(p);
                self.begin_diagnosis();
                Some(path)
            },
            None => None,
        }
    }

    /// What the content area shows.
    pub fn screen(&self) -> (s: Screen)
        ensures
            shows(self@, s),
    {
        if self.loading {
            Screen::Loading
        } else if let Some(msg) = &self.error_message {
            Screen::Error(msg.clone())
        } else if self.state.diagnosis_report.is_some() {
            Screen::Report
        } else {
            Screen::Empty
        }
    }
}

// ─── Laws ─────────────────────────────────────────────────────────────────────

/// Choosing a file makes it the file worked on, whatever file was chosen
/// before, starts a diagnosis of it, and keeps what else is known; a later
/// request to diagnose then returns that file.
pub proof fn lemma_choosing_a_file(v: AppView, path: std::path::PathBuf)
    ensures
        started(with_file(v, path)).state.file_path == Some(path),
        started(with_file(v, path)).state.file_info == v.state.file_info,
        started(with_file(v, path)).state.diagnosis_report == v.state.diagnosis_report,
        started(with_file(v, path)).loading,
        started(with_file(v, path)).error is None,
        forall|o: DiagnosisOutcome|
            #[trigger] finished(started(with_file(v, path)), o).state.file_path == Some(path),
{
}

/// How a diagnosis's end changes the application, from any state: it stops
/// loading and keeps the chosen file and its facts; a report replaces the
/// stored report and leaves the error as it was; a failure leaves the report
/// and shows its message, prefixed with `Task error: ` when the task failed.
pub proof fn lemma_finishing(v: AppView, outcome: DiagnosisOutcome)
    ensures
        !finished(v, outcome).loading,
        finished(v, outcome).state.file_path == v.state.file_path,
        finished(v, outcome).state.file_info == v.state.file_info,
        outcome matches DiagnosisOutcome::Finished(r) ==> finished(v, outcome).state.diagnosis_report
            == Some(r) && finished(v, outcome).error == v.error,
        outcome matches DiagnosisOutcome::Failed(m) ==> finished(v, outcome).state.diagnosis_report
            == v.state.diagnosis_report && finished(v, outcome).error == Some(m@),
        outcome matches DiagnosisOutcome::TaskFailed(m) ==> finished(
            v,
            outcome,
        ).state.diagnosis_report == v.state.diagnosis_report && finished(v, outcome).error == Some(
            seq!['T', 'a', 's', 'k', ' ', 'e', 'r', 'r', 'o', 'r', ':', ' '] + m@,
        ),
{
}

/// Which view the window shows: loading while a diagnosis runs (over an
/// error or a report), else the error message if one is shown (over a
/// report), else the report if there is one, else the empty view.
pub proof fn lemma_screen_choice(v: AppView, screen: Screen)
    ensures
        v.loading ==> (shows(v, screen) <==> screen == Screen::Loading),
        !v.loading && v.error is Some ==> (shows(v, screen) <==> (screen matches Screen::Error(e)
            && e@ == v.error->0)),
        !v.loading && v.error is None && v.state.diagnosis_report is Some ==> (shows(v, screen)
            <==> screen == Screen::Report),
        !v.loading && v.error is None && v.state.diagnosis_report is None ==> (shows(v, screen)
            <==> screen == Screen::Empty),
{
}

/// A running diagnosis is shown as loading, whatever else the application holds.
pub proof fn lemma_started_shows_loading(v: AppView, screen: Screen)
    ensures
        shows(started(v), screen) <==> screen == Screen::Loading,
        started(v).error is None,
        started(v).state == v.state,
{
}

/// A diagnosis that was started and then ended stops loading and keeps the
/// chosen file; a report is stored and shown, a failure is shown as the error.
pub proof fn lemma_diagnosis_run(v: AppView, outcome: DiagnosisOutcome, screen: Screen)
    ensures
        !finished(started(v), outcome).loading,
        finished(started(v), outcome).state.file_path == v.state.file_path,
        outcome matches DiagnosisOutcome::Finished(r) ==> {
            &&& finished(started(v), outcome).state.diagnosis_report == Some(r)
            &&& (shows(finished(started(v), outcome), screen) <==> screen == Screen::Report)
        },
        outcome matches DiagnosisOutcome::Failed(m) ==> (shows(
            finished(started(v), outcome),
            screen,
        ) <==> (screen matches Screen::Error(e) && e@ == m@)),
        outcome matches DiagnosisOutcome::TaskFailed(m) ==> (shows(
            finished(started(v), outcome),
            screen,
        ) <==> (screen matches Screen::Error(e) && e@ == task_error_prefix() + m@)),
{
}

/// The overall score is good exactly when no column is flagged, dangerous
/// exactly when some column has a dangerous grade, and a warning exactly when
/// some column is flagged but none is dangerous.
pub proof fn lemma_overall_score_agrees_with_columns(reports: Seq<ColumnReport>)
    ensures
        (overall_score_of(reports) == HealthScore::Good) <==> (forall|i: int|
            0 <= i < reports.len() ==> column_is_good(#[trigger] reports[i])),
        (overall_score_of(reports) == HealthScore::Danger) <==> (exists|i: int|
            0 <= i < reports.len() && column_is_dangerous(#[trigger] reports[i])),
        (overall_score_of(reports) == HealthScore::Warning) <==> ((exists|i: int|
            0 <= i < reports.len() && !column_is_good(#[trigger] reports[i])) && !(exists|i: int|
            0 <= i < reports.len() && column_is_dangerous(#[trigger] reports[i]))),
{
    if exists|i: int| 0 <= i < reports.len() && column_is_dangerous(#[trigger] reports[i]) {
        let i = choose|i: int| 0 <= i < reports.len() && column_is_dangerous(#[trigger] reports[i]);
        assert(!column_is_good(reports[i]));
    }
    if !(forall|i: int| 0 <= i < reports.len() ==> column_is_good(#[trigger] reports[i])) {
        let i = choose|i: int| 0 <= i < reports.len() && !column_is_good(#[trigger] reports[i]);
        assert(exists|i: int| 0 <= i < reports.len() && !column_is_good(#[trigger] reports[i]));
    }
}

} // verus!
