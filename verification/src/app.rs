use vstd::prelude::*;

verus! {

/// A file system path, carried through the library without being inspected.
#[verifier::external_type_specification]
#[verifier::external_body]
pub struct ExPathBuf(std::path::PathBuf);

/// The quotient `numerator / denominator` of two counts.
///
/// A zero denominator stands for an undefined quotient (the `0 / 0` of an
/// empty batch): it is neither below, above nor at any threshold.
#[derive(Clone, Copy, Debug, PartialEq, Eq, Structural)]
pub struct Rate {
    pub numerator: usize,
    pub denominator: usize,
}

impl Rate {
    /// The rate is defined and strictly below `p / q`.
    pub open spec fn below(self, p: int, q: int) -> bool {
        self.denominator != 0 && self.numerator * q < p * self.denominator
    }

    /// The rate is defined and strictly above `p / q`.
    pub open spec fn above(self, p: int, q: int) -> bool {
        self.denominator != 0 && self.numerator * q > p * self.denominator
    }

    /// The rate is defined and at least `p / q`.
    pub open spec fn at_least(self, p: int, q: int) -> bool {
        self.denominator != 0 && self.numerator * q >= p * self.denominator
    }

    /// Whether the rate is defined and strictly below `p / q`.
    pub fn is_below(&self, p: u64, q: u64) -> (b: bool)
        ensures
            b == self.below(p as int, q as int),
    {
        if self.denominator == 0 {
            return false;
        }
        let n: u128 = self.numerator as u128;
        let d: u128 = self.denominator as u128;
        let pp: u128 = p as u128;
        let qq: u128 = q as u128;
        assert(n * qq <= u64::MAX * u64::MAX) by (nonlinear_arith)
            requires n <= u64::MAX, qq <= u64::MAX;
        assert(pp * d <= u64::MAX * u64::MAX) by (nonlinear_arith)
            requires pp <= u64::MAX, d <= u64::MAX;
        n * qq < pp * d
    }

    /// Whether the rate is defined and strictly above `p / q`.
    pub fn is_above(&self, p: u64, q: u64) -> (b: bool)
        ensures
            b == self.above(p as int, q as int),
    {
        if self.denominator == 0 {
            return false;
        }
        let n: u128 = self.numerator as u128;
        let d: u128 = self.denominator as u128;
        let pp: u128 = p as u128;
        let qq: u128 = q as u128;
        assert(n * qq <= u64::MAX * u64::MAX) by (nonlinear_arith)
            requires n <= u64::MAX, qq <= u64::MAX;
        assert(pp * d <= u64::MAX * u64::MAX) by (nonlinear_arith)
            requires pp <= u64::MAX, d <= u64::MAX;
        n * qq > pp * d
    }

    /// Whether the rate is defined and at least `p / q`.
    pub fn is_at_least(&self, p: u64, q: u64) -> (b: bool)
        ensures
            b == self.at_least(p as int, q as int),
    {
        if self.denominator == 0 {
            return false;
        }
        let n: u128 = self.numerator as u128;
        let d: u128 = self.denominator as u128;
        let pp: u128 = p as u128;
        let qq: u128 = q as u128;
        assert(n * qq <= u64::MAX * u64::MAX) by (nonlinear_arith)
            requires n <= u64::MAX, qq <= u64::MAX;
        assert(pp * d <= u64::MAX * u64::MAX) by (nonlinear_arith)
            requires pp <= u64::MAX, d <= u64::MAX;
        n * qq >= pp * d
    }
}

/// How healthy a measured quantity is.
#[derive(Clone, Copy, Debug, PartialEq, Eq, Structural)]
pub enum HealthScore {
    Good,
    Warning,
    Danger,
}

/// The health of a column's null rate and of its duplicate rate.
#[derive(Clone, Copy, Debug, PartialEq, Eq, Structural)]
pub struct HealthStatus {
    pub null_status: HealthScore,
    pub duplicate_status: HealthScore,
}

/// Statistics of a text column over its non-null values.
///
/// `avg_length` is the total byte length of the values over their number.
#[derive(Clone, Copy, Debug, PartialEq, Eq, Structural)]
pub struct TextStats {
    pub avg_length: Rate,
    pub has_html: bool,
}

/// A cleaning suggestion for a column, with the rate that prompted it.
#[derive(Clone, Copy, Debug, PartialEq, Eq, Structural)]
pub enum Suggestion {
    /// The null rate is above 30%: drop the column or fill it with the mean.
    DropOrImputeNulls(Rate),
    /// The null rate is at least 5% (and at most 30%): inspect where the nulls are.
    CheckNullDistribution(Rate),
    /// The duplicate rate is above 30%: deduplicate.
    Deduplicate(Rate),
    /// Some value holds both `<` and `>`: strip the HTML before training.
    CleanHtml,
}

/// Facts about a data file.
#[derive(Debug)]
pub struct FileInfo {
    pub path: std::path::PathBuf,
    pub row_count: i64,
    pub column_count: usize,
    pub file_size: u64,
}

/// The diagnosis of one column of a batch.
#[derive(Debug)]
pub struct ColumnReport {
    pub name: String,
    pub null_rate: Rate,
    pub duplicate_rate: Rate,
    pub unique_count: usize,
    pub health_status: HealthStatus,
    pub suggestions: Vec<Suggestion>,
    pub text_stats: Option<TextStats>,
}

/// The diagnosis of a whole file.
#[derive(Debug)]
pub struct DiagnosisReport {
    pub overall_score: HealthScore,
    pub file_info: FileInfo,
    pub column_reports: Vec<ColumnReport>,
}

/// What the application knows about the file it works on.
#[derive(Debug)]
pub struct AppState {
    pub file_path: Option<std::path::PathBuf>,
    pub file_info: Option<FileInfo>,
    pub diagnosis_report: Option<DiagnosisReport>,
}

impl AppState {
    /// A state with no file, no file information and no report.
    pub fn new() -> (s: Self)
        ensures
            s.file_path is None,
            s.file_info is None,
            s.diagnosis_report is None,
    {
        AppState { file_path: None, file_info: None, diagnosis_report: None }
    }
}

} // verus!
