use vstd::prelude::*;

use crate::app::{ColumnReport, HealthScore, HealthStatus, Rate, Suggestion, TextStats};
use vstd::utf8::encode_utf8;
use crate::diagnosis::text::{
    byte_len, contains_char, lemma_stand_in_has_no_angle, lemma_stand_in_injective, stand_in,
    stand_in_byte_len, stand_in_value, string_byte_len,
};

verus! {

/// One column of a batch, as the diagnosis reads it.
///
/// `null_count` is the column's own count of nulls; `null_flags[i]` says
/// whether the cell at row `i` is null.
#[derive(Debug)]
pub struct ColumnData {
    pub name: String,
    pub is_string: bool,
    pub null_count: usize,
    pub null_flags: Vec<bool>,
}

/// A batch of rows: its row count and its columns in schema order.
#[derive(Debug)]
pub struct BatchData {
    pub num_rows: usize,
    pub columns: Vec<ColumnData>,
}

// ─── Model ────────────────────────────────────────────────────────────────────

/// The values that stand for the non-null cells of a column, in row order:
/// the cell at row `i` is represented by `value_<i>`.
pub open spec fn non_null_values(flags: Seq<bool>) -> Seq<Seq<char>>
    decreases flags.len(),
{
    if flags.len() == 0 {
        seq![]
    } else {
        let prev = non_null_values(flags.drop_last());
        if flags.last() {
            prev
        } else {
            prev.push(stand_in((flags.len() - 1) as nat))
        }
    }
}

/// The character sequences of a sequence of strings.
pub open spec fn string_views(v: Seq<String>) -> Seq<Seq<char>> {
    v.map_values(|s: String| s@)
}

/// The number of distinct values.
pub open spec fn distinct_count(vals: Seq<Seq<char>>) -> nat {
    vals.to_set().len()
}

/// The total byte length of the values.
pub open spec fn total_bytes(vals: Seq<Seq<char>>) -> nat
    decreases vals.len(),
{
    if vals.len() == 0 {
        0
    } else {
        total_bytes(vals.drop_last()) + byte_len(vals.last())
    }
}

/// A value looks like HTML when it holds both `<` and `>`.
pub open spec fn looks_like_html(v: Seq<char>) -> bool {
    v.contains('<') && v.contains('>')
}

/// Some value looks like HTML.
pub open spec fn any_html(vals: Seq<Seq<char>>) -> bool {
    exists|i: int| 0 <= i < vals.len() && #[trigger] looks_like_html(vals[i])
}

/// The grade of a rate: `Good` below `good_p / good_q`, else `Warning` below
/// 30%, else `Danger` (an undefined rate is `Danger`).
pub open spec fn grade(rate: Rate, good_p: int, good_q: int) -> HealthScore {
    if rate.below(good_p, good_q) {
        HealthScore::Good
    } else if rate.below(3, 10) {
        HealthScore::Warning
    } else {
        HealthScore::Danger
    }
}

/// Null rates are good below 5%, duplicate rates below 10%.
pub open spec fn health_status_of(null_rate: Rate, duplicate_rate: Rate) -> HealthStatus {
    HealthStatus { null_status: grade(null_rate, 1, 20), duplicate_status: grade(duplicate_rate, 1, 10) }
}

/// The suggestions for a column, in order: at most one about nulls (above
/// 30%, or else at least 5%), one about duplicates (above 30%), one about HTML.
pub open spec fn suggestions_for(null_rate: Rate, duplicate_rate: Rate, vals: Seq<Seq<char>>) -> Seq<
    Suggestion,
> {
    let nulls = if null_rate.above(3, 10) {
        seq![Suggestion::DropOrImputeNulls(null_rate)]
    } else if null_rate.at_least(1, 20) {
        seq![Suggestion::CheckNullDistribution(null_rate)]
    } else {
        seq![]
    };
    let duplicates = if duplicate_rate.above(3, 10) {
        seq![Suggestion::Deduplicate(duplicate_rate)]
    } else {
        seq![]
    };
    let html = if any_html(vals) {
        seq![Suggestion::CleanHtml]
    } else {
        seq![]
    };
    nulls + duplicates + html
}

/// The text statistics of the values.
pub open spec fn text_stats_of(vals: Seq<Seq<char>>) -> TextStats {
    TextStats {
        avg_length: Rate { numerator: total_bytes(vals) as usize, denominator: vals.len() as usize },
        has_html: any_html(vals),
    }
}

/// The null rate of a column: its null count over the batch's rows.
pub open spec fn null_rate_of(num_rows: usize, col: ColumnData) -> Rate {
    Rate { numerator: col.null_count, denominator: num_rows }
}

/// The duplicate rate of values: the values beyond the distinct ones, over the batch's rows.
pub open spec fn duplicate_rate_of(num_rows: usize, vals: Seq<Seq<char>>) -> Rate {
    Rate { numerator: (vals.len() - distinct_count(vals)) as usize, denominator: num_rows }
}

/// `report` is the diagnosis of column `col` of a batch of `num_rows` rows.
pub open spec fn describes(report: ColumnReport, num_rows: usize, col: ColumnData) -> bool {
    let vals = non_null_values(col.null_flags@);
    &&& report.name == col.name
    &&& report.null_rate == null_rate_of(num_rows, col)
    &&& report.unique_count == distinct_count(vals)
    &&& report.duplicate_rate == duplicate_rate_of(num_rows, vals)
    &&& report.health_status == health_status_of(report.null_rate, report.duplicate_rate)
    &&& report.suggestions@ == suggestions_for(report.null_rate, report.duplicate_rate, vals)
    &&& report.text_stats == (if col.is_string {
        Some(text_stats_of(vals))
    } else {
        None
    })
}

/// The diagnosis of a string column sums the byte lengths of its stand-in
/// values; that sum must fit in a `usize`.
pub open spec fn column_fits(col: ColumnData) -> bool {
    col.is_string ==> total_bytes(non_null_values(col.null_flags@)) <= usize::MAX
}

/// Every column of the batch fits.
pub open spec fn batch_fits(batch: BatchData) -> bool {
    forall|i: int| 0 <= i < batch.columns.len() ==> column_fits(#[trigger] batch.columns@[i])
}

// ─── Computation ──────────────────────────────────────────────────────────────

/// The null rate of a column, and the stand-in values of its non-null cells.
pub fn calculate_null_rate(column: &ColumnData, row_count: usize) -> (res: (Rate, Vec<String>))
    ensures
        res.0 == null_rate_of(row_count, *column),
        string_views(res.1@) == non_null_values(column.null_flags@),
{
    let null_rate = Rate { numerator: column.null_count, denominator: row_count };
    let mut values: Vec<String> = Vec::new();
    let n = column.null_flags.len();
    let mut i: usize = 0;
    while i < n
        invariant
            n == column.null_flags@.len(),
            i <= n,
            string_views(values@) == non_null_values(column.null_flags@.take(i as int)),
        decreases n - i,
    {
        let ghost before = values@;
        assert(column.null_flags@.take(i + 1).drop_last() =~= column.null_flags@.take(i as int));
        if !column.null_flags[i] {
            let v = stand_in_value(i);
            values.push(v);
            assert(string_views(values@) =~= string_views(before).push(v@));
        }
        i = i + 1;
    }
    assert(column.null_flags@.take(n as int) =~= column.null_flags@);
    (null_rate, values)
}

/// Whether `value` occurs in `seen`.
fn occurs_in(seen: &Vec<String>, value: &String) -> (b: bool)
    ensures
        b == string_views(seen@).contains(value@),
{
    let n = seen.len();
    let mut j: usize = 0;
    while j < n
        invariant
            n == seen@.len(),
            j <= n,
            forall|k: int| 0 <= k < j ==> seen@[k]@ != value@,
        decreases n - j,
    {
        if seen[j] == *value {
            assert(string_views(seen@)[j as int] == value@);
            return true;
        }
        j = j + 1;
    }
    assert forall|k: int| 0 <= k < string_views(seen@).len() implies string_views(seen@)[k]
        != value@ by {
        assert(seen@[k]@ != value@);
    }
    false
}

/// The duplicate rate of the values over `row_count` rows, and the number
/// of distinct values.
pub fn calculate_duplicate_rate(values: &[String], row_count: usize) -> (res: (Rate, usize))
    ensures
        res.1 == distinct_count(string_views(values@)),
        res.0 == duplicate_rate_of(row_count, string_views(values@)),
{
    let ghost views = string_views(values@);
    let mut distinct: Vec<String> = Vec::new();
    let n = values.len();
    let mut i: usize = 0;
    while i < n
        invariant
            n == values@.len(),
            views == string_views(values@),
            i <= n,
            string_views(distinct@).no_duplicates(),
            string_views(distinct@).to_set() == views.take(i as int).to_set(),
        decreases n - i,
    {
        let ghost before = distinct@;
        assert(views.take(i + 1) =~= views.take(i as int).push(views[i as int]));
        proof {
            views.take(i as int).lemma_push_to_set_commute(views[i as int]);
        }
        assert(views[i as int] == values@[i as int]@);
        if !occurs_in(&distinct, &values[i]) {
            let v = values[i].clone();
            distinct.push(v);
            assert(string_views(distinct@) =~= string_views(before).push(v@));
            proof {
                string_views(before).lemma_push_to_set_commute(v@);
            }
        } else {
            assert(string_views(before).to_set().contains(views[i as int]));
            assert(views.take(i + 1).to_set() =~= views.take(i as int).to_set());
        }
        i = i + 1;
    }
    assert(views.take(n as int) =~= views);
    proof {
        string_views(distinct@).unique_seq_to_set();
        views.lemma_cardinality_of_set();
    }
    let unique_count = distinct.len();
    let duplicate_rate = Rate { numerator: n - unique_count, denominator: row_count };
    (duplicate_rate, unique_count)
}

/// Grades the null rate (good below 5%) and the duplicate rate (good below
/// 10%); either is a warning below 30% and dangerous otherwise.
pub fn determine_health_status(null_rate: Rate, duplicate_rate: Rate) -> (status: HealthStatus)
    ensures
        status == health_status_of(null_rate, duplicate_rate),
{
    let null_status = if null_rate.is_below(1, 20) {
        HealthScore::Good
    } else if null_rate.is_below(3, 10) {
        HealthScore::Warning
    } else {
        HealthScore::Danger
    };
    let duplicate_status = if duplicate_rate.is_below(1, 10) {
        HealthScore::Good
    } else if duplicate_rate.is_below(3, 10) {
        HealthScore::Warning
    } else {
        HealthScore::Danger
    };
    HealthStatus { null_status, duplicate_status }
}

/// Whether some value holds both `<` and `>`.
fn values_hold_html(values: &[String]) -> (b: bool)
    ensures
        b == any_html(string_views(values@)),
{
    let ghost views = string_views(values@);
    let n = values.len();
    let mut i: usize = 0;
    while i < n
        invariant
            n == values@.len(),
            views == string_views(values@),
            i <= n,
            forall|k: int| 0 <= k < i ==> !looks_like_html(#[trigger] views[k]),
        decreases n - i,
    {
        if contains_char(&values[i], '<') && contains_char(&values[i], '>') {
            assert(looks_like_html(views[i as int]));
            return true;
        }
        assert(!looks_like_html(views[i as int]));
        i = i + 1;
    }
    false
}

/// The cleaning suggestions for a column with the given rates and values.
pub fn generate_suggestions(null_rate: Rate, duplicate_rate: Rate, values: &[String]) -> (res: Vec<
    Suggestion,
>)
    ensures
        res@ == suggestions_for(null_rate, duplicate_rate, string_views(values@)),
{
    let mut suggestions: Vec<Suggestion> = Vec::new();
    if null_rate.is_above(3, 10) {
        suggestions.push(Suggestion::DropOrImputeNulls(null_rate));
    } else if null_rate.is_at_least(1, 20) {
        suggestions.push(Suggestion::CheckNullDistribution(null_rate));
    }
    if duplicate_rate.is_above(3, 10) {
        suggestions.push(Suggestion::Deduplicate(duplicate_rate));
    }
    if values_hold_html(values) {
        suggestions.push(Suggestion::CleanHtml);
    }
    assert(suggestions@ =~= suggestions_for(null_rate, duplicate_rate, string_views(values@)));
    suggestions
}

/// The average byte length of the values and whether any looks like HTML.
pub fn calculate_text_stats(values: &[String]) -> (stats: TextStats)
    requires
        total_bytes(string_views(values@)) <= usize::MAX,
    ensures
        stats == text_stats_of(string_views(values@)),
{
    let ghost views = string_views(values@);
    let n = values.len();
    let mut total_length: usize = 0;
    let mut i: usize = 0;
    while i < n
        invariant
            n == values@.len(),
            views == string_views(values@),
            total_bytes(views) <= usize::MAX,
            i <= n,
            total_length == total_bytes(views.take(i as int)),
        decreases n - i,
    {
        assert(views.take(i + 1).drop_last() =~= views.take(i as int));
        proof {
            lemma_total_bytes_prefix(views, i + 1);
        }
        let len = string_byte_len(&values[i]);
        total_length = total_length + len;
        i = i + 1;
    }
    assert(views.take(n as int) =~= views);
    let has_html = values_hold_html(values);
    TextStats { avg_length: Rate { numerator: total_length, denominator: n }, has_html }
}

/// The byte total of a prefix is at most the byte total of the whole.
proof fn lemma_total_bytes_prefix(vals: Seq<Seq<char>>, k: int)
    requires
        0 <= k <= vals.len(),
    ensures
        total_bytes(vals.take(k)) <= total_bytes(vals),
    decreases vals.len() - k,
{
    if k < vals.len() {
        assert(vals.take(k + 1).drop_last() =~= vals.take(k));
        lemma_total_bytes_prefix(vals, k + 1);
    } else {
        assert(vals.take(k) =~= vals);
    }
}

/// The diagnosis of one column of a batch of `row_count` rows.
pub fn diagnose_column(column: &ColumnData, row_count: usize) -> (report: ColumnReport)
    requires
        column_fits(*column),
    ensures
        describes(report, row_count, *column),
{
    let (null_rate, non_null_values) = calculate_null_rate(column, row_count);
    let (duplicate_rate, unique_count) = calculate_duplicate_rate(non_null_values.as_slice(), row_count);
    let health_status = determine_health_status(null_rate, duplicate_rate);
    let suggestions = generate_suggestions(null_rate, duplicate_rate, non_null_values.as_slice());
    let text_stats = if column.is_string {
        Some(calculate_text_stats(non_null_values.as_slice()))
    } else {
        None
    };
    ColumnReport {
        name: column.name.clone(),
        null_rate,
        duplicate_rate,
        unique_count,
        health_status,
        suggestions,
        text_stats,
    }
}

/// The diagnosis of every column of the batch, in schema order.
pub fn diagnose_batch(batch: &BatchData) -> (reports: Vec<ColumnReport>)
    requires
        batch_fits(*batch),
    ensures
        reports@.len() == batch.columns@.len(),
        forall|i: int|
            0 <= i < reports@.len() ==> describes(
                #[trigger] reports@[i],
                batch.num_rows,
                batch.columns@[i],
            ),
{
    let mut column_reports: Vec<ColumnReport> = Vec::new();
    let row_count = batch.num_rows;
    let n = batch.columns.len();
    let mut i: usize = 0;
    while i < n
        invariant
            n == batch.columns@.len(),
            row_count == batch.num_rows,
            batch_fits(*batch),
            i <= n,
            column_reports@.len() == i,
            forall|k: int|
                0 <= k < i ==> describes(
                    #[trigger] column_reports@[k],
                    row_count,
                    batch.columns@[k],
                ),
        decreases n - i,
    {
        assert(column_fits(batch.columns@[i as int]));
        let report = diagnose_column(&batch.columns[i], row_count);
        column_reports.push(report);
        i = i + 1;
    }
    column_reports
}

/// Whether the stand-in values of a column fit the diagnosis (see `column_fits`).
pub fn check_column_fits(column: &ColumnData) -> (b: bool)
    ensures
        b == column_fits(*column),
{
    if !column.is_string {
        return true;
    }
    let flags = &column.null_flags;
    let n = flags.len();
    let mut total: usize = 0;
    let mut i: usize = 0;
    while i < n
        invariant
            n == flags@.len(),
            column.is_string,
            flags@ == column.null_flags@,
            i <= n,
            total == total_bytes(non_null_values(flags@.take(i as int))),
        decreases n - i,
    {
        assert(flags@.take(i + 1).drop_last() =~= flags@.take(i as int));
        if !flags[i] {
            let len = stand_in_byte_len(i);
            if len > usize::MAX - total {
                assert(non_null_values(flags@.take(i + 1)).drop_last() =~= non_null_values(
                    flags@.take(i as int),
                ));
                assert(flags@.take(i + 1).last() == flags@[i as int]);
                assert(total_bytes(non_null_values(flags@.take(i + 1))) == total + len);
                proof {
                    lemma_total_bytes_grow(flags@, i + 1);
                }
                return false;
            }
            total = total + len;
            assert(non_null_values(flags@.take(i + 1)).drop_last() =~= non_null_values(
                flags@.take(i as int),
            ));
        }
        i = i + 1;
    }
    assert(flags@.take(n as int) =~= flags@);
    true
}

/// Whether every column of the batch fits the diagnosis (see `batch_fits`).
pub fn check_batch_fits(batch: &BatchData) -> (b: bool)
    ensures
        b == batch_fits(*batch),
{
    let n = batch.columns.len();
    let mut i: usize = 0;
    while i < n
        invariant
            n == batch.columns@.len(),
            i <= n,
            forall|k: int| 0 <= k < i ==> column_fits(#[trigger] batch.columns@[k]),
        decreases n - i,
    {
        if !check_column_fits(&batch.columns[i]) {
            return false;
        }
        i = i + 1;
    }
    true
}

/// The byte total of the stand-in values of a prefix of a column never
/// exceeds that of a longer prefix.
proof fn lemma_total_bytes_grow(flags: Seq<bool>, k: int)
    requires
        0 <= k <= flags.len(),
    ensures
        total_bytes(non_null_values(flags.take(k))) <= total_bytes(non_null_values(flags)),
    decreases flags.len() - k,
{
    if k < flags.len() {
        let short = flags.take(k);
        let long = flags.take(k + 1);
        assert(long.drop_last() =~= short);
        if !long.last() {
            assert(non_null_values(long).drop_last() =~= non_null_values(short));
        }
        lemma_total_bytes_grow(flags, k + 1);
    } else {
        assert(flags.take(k) =~= flags);
    }
}

// ─── Laws ─────────────────────────────────────────────────────────────────────

/// Each stand-in value of a column is that of a row before the end of the column.
proof fn lemma_non_null_values_rows(flags: Seq<bool>)
    ensures
        forall|j: int|
            0 <= j < non_null_values(flags).len() ==> exists|k: nat|
                k < flags.len() && #[trigger] non_null_values(flags)[j] == stand_in(k),
        non_null_values(flags).no_duplicates(),
    decreases flags.len(),
{
    if flags.len() > 0 {
        let prev_flags = flags.drop_last();
        lemma_non_null_values_rows(prev_flags);
        let prev = non_null_values(prev_flags);
        if !flags.last() {
            let last = (flags.len() - 1) as nat;
            let vals = non_null_values(flags);
            assert(vals == prev.push(stand_in(last)));
            assert forall|j: int| 0 <= j < vals.len() implies exists|k: nat|
                k < flags.len() && #[trigger] vals[j] == stand_in(k) by {
                if j < prev.len() {
                    assert(vals[j] == prev[j]);
                } else {
                    assert(vals[j] == stand_in(last));
                }
            }
            assert forall|a: int, b: int|
                0 <= a < vals.len() && 0 <= b < vals.len() && a != b implies vals[a]
                != vals[b] by {
                if a < prev.len() && b < prev.len() {
                    assert(vals[a] == prev[a] && vals[b] == prev[b]);
                } else if a < prev.len() {
                    let k = choose|k: nat| k < prev_flags.len() && #[trigger] prev[a] == stand_in(k);
                    if vals[a] == vals[b] {
                        lemma_stand_in_injective(k, last);
                    }
                } else {
                    let k = choose|k: nat| k < prev_flags.len() && #[trigger] prev[b] == stand_in(k);
                    if vals[a] == vals[b] {
                        lemma_stand_in_injective(k, last);
                    }
                }
            }
        }
    }
}

/// The stand-in values of a column are those of its non-null rows: each one
/// is `stand_in(k)` for a non-null row `k`, and each non-null row has its
/// stand-in among them.
pub proof fn lemma_non_null_values_are_non_null_rows(flags: Seq<bool>)
    ensures
        forall|j: int|
            0 <= j < non_null_values(flags).len() ==> exists|k: int|
                0 <= k < flags.len() && !flags[k] && #[trigger] non_null_values(flags)[j]
                    == stand_in(k as nat),
        forall|k: int|
            0 <= k < flags.len() && !flags[k] ==> non_null_values(flags).contains(
                #[trigger] stand_in(k as nat),
            ),
    decreases flags.len(),
{
    if flags.len() > 0 {
        let prev_flags = flags.drop_last();
        lemma_non_null_values_are_non_null_rows(prev_flags);
        let prev = non_null_values(prev_flags);
        let vals = non_null_values(flags);
        let last = flags.len() - 1;
        assert forall|j: int| 0 <= j < vals.len() implies exists|k: int|
            0 <= k < flags.len() && !flags[k] && #[trigger] vals[j] == stand_in(k as nat) by {
            if j < prev.len() {
                assert(vals[j] == prev[j]);
                let k = choose|k: int|
                    0 <= k < prev_flags.len() && !prev_flags[k] && #[trigger] prev[j] == stand_in(
                        k as nat,
                    );
                assert(flags[k] == prev_flags[k]);
            } else {
                assert(!flags[last]);
                assert(vals[j] == stand_in(last as nat));
            }
        }
        assert forall|k: int| 0 <= k < flags.len() && !flags[k] implies vals.contains(
            #[trigger] stand_in(k as nat),
        ) by {
            if k < last {
                assert(prev_flags[k] == flags[k]);
                assert(prev.contains(stand_in(k as nat)));
                let j = choose|j: int| 0 <= j < prev.len() && prev[j] == stand_in(k as nat);
                if !flags.last() {
                    assert(vals[j] == prev[j]);
                }
            } else {
                assert(vals[vals.len() - 1] == stand_in(k as nat));
            }
        }
    }
}

/// The stand-in values of a column are listed in row order: of two values,
/// the earlier one is that of the earlier row.
pub proof fn lemma_non_null_values_in_row_order(flags: Seq<bool>)
    ensures
        forall|j1: int, j2: int, k1: nat, k2: nat|
            #![trigger non_null_values(flags)[j1], non_null_values(flags)[j2], stand_in(k1), stand_in(k2)]
            0 <= j1 < j2 < non_null_values(flags).len() && non_null_values(flags)[j1] == stand_in(
                k1,
            ) && non_null_values(flags)[j2] == stand_in(k2) ==> k1 < k2,
    decreases flags.len(),
{
    if flags.len() > 0 {
        let prev_flags = flags.drop_last();
        lemma_non_null_values_in_row_order(prev_flags);
        lemma_non_null_values_rows(prev_flags);
        let prev = non_null_values(prev_flags);
        let vals = non_null_values(flags);
        let last = (flags.len() - 1) as nat;
        assert forall|j1: int, j2: int, k1: nat, k2: nat|
            #![trigger vals[j1], vals[j2], stand_in(k1), stand_in(k2)]
            0 <= j1 < j2 < vals.len() && vals[j1] == stand_in(k1) && vals[j2] == stand_in(k2)
                implies k1 < k2 by {
            assert(vals[j1] == prev[j1]);
            if j2 < prev.len() {
                assert(vals[j2] == prev[j2]);
            } else {
                assert(vals[j2] == stand_in(last));
                lemma_stand_in_injective(k2, last);
                let k = choose|k: nat| k < prev_flags.len() && #[trigger] prev[j1] == stand_in(k);
                lemma_stand_in_injective(k1, k);
            }
        }
    }
}

/// The total byte length is additive, and that of one value is the length
/// of its UTF-8 encoding.
pub proof fn lemma_total_bytes_additive(a: Seq<Seq<char>>, b: Seq<Seq<char>>, v: Seq<char>)
    ensures
        total_bytes(a + b) == total_bytes(a) + total_bytes(b),
        total_bytes(seq![v]) == encode_utf8(v).len(),
    decreases b.len(),
{
    assert(seq![v].drop_last() =~= Seq::<Seq<char>>::empty());
    assert(total_bytes(Seq::<Seq<char>>::empty()) == 0);
    assert(seq![v].last() == v);
    assert(total_bytes(seq![v]) == total_bytes(seq![v].drop_last()) + byte_len(v));
    if b.len() == 0 {
        assert(a + b =~= a);
    } else {
        assert((a + b).drop_last() =~= a + b.drop_last());
        lemma_total_bytes_additive(a, b.drop_last(), v);
    }
}

/// The text statistics of values, over their count and bytes: the average's
/// denominator is the number of values and its numerator their total byte
/// length; HTML is reported exactly when some value holds `<` and `>`.
pub proof fn lemma_text_stats_characterized(vals: Seq<Seq<char>>)
    requires
        total_bytes(vals) <= usize::MAX,
        vals.len() <= usize::MAX,
    ensures
        text_stats_of(vals).avg_length.denominator == vals.len(),
        text_stats_of(vals).avg_length.numerator == total_bytes(vals),
        text_stats_of(vals).has_html <==> (exists|i: int|
            0 <= i < vals.len() && (#[trigger] vals[i]).contains('<') && vals[i].contains('>')),
{
    if text_stats_of(vals).has_html {
        let i = choose|i: int| 0 <= i < vals.len() && #[trigger] looks_like_html(vals[i]);
        assert(vals[i].contains('<') && vals[i].contains('>'));
    } else {
        assert forall|i: int| 0 <= i < vals.len() implies !((#[trigger] vals[i]).contains('<')
            && vals[i].contains('>')) by {
            assert(!looks_like_html(vals[i]));
        }
    }
}

/// The grades of a column, over the counts of its rates: the null grade is
/// good below 1/20, a warning from 1/20 to below 3/10, dangerous from 3/10;
/// the duplicate grade is good below 1/10, a warning from 1/10 to below 3/10,
/// dangerous from 3/10; an undefined rate (zero denominator) is dangerous.
pub proof fn lemma_grade_bands(null_rate: Rate, duplicate_rate: Rate)
    ensures
        null_rate.denominator == 0 ==> health_status_of(null_rate, duplicate_rate).null_status
            == HealthScore::Danger,
        duplicate_rate.denominator == 0 ==> health_status_of(
            null_rate,
            duplicate_rate,
        ).duplicate_status == HealthScore::Danger,
        null_rate.denominator != 0 ==> {
            let n = null_rate.numerator as int;
            let d = null_rate.denominator as int;
            let g = health_status_of(null_rate, duplicate_rate).null_status;
            &&& (g == HealthScore::Good <==> 20 * n < d)
            &&& (g == HealthScore::Warning <==> d <= 20 * n && 10 * n < 3 * d)
            &&& (g == HealthScore::Danger <==> 3 * d <= 10 * n)
        },
        duplicate_rate.denominator != 0 ==> {
            let n = duplicate_rate.numerator as int;
            let d = duplicate_rate.denominator as int;
            let g = health_status_of(null_rate, duplicate_rate).duplicate_status;
            &&& (g == HealthScore::Good <==> 10 * n < d)
            &&& (g == HealthScore::Warning <==> d <= 10 * n && 10 * n < 3 * d)
            &&& (g == HealthScore::Danger <==> 3 * d <= 10 * n)
        },
{
}

/// What a column report says, over its column and batch: its name; the null
/// rate is the column's null count over the batch's rows; the distinct count
/// and the duplicate count add up to the number of non-null cells, and the
/// duplicate rate is over the batch's rows; text statistics are given exactly
/// for string columns, averaged over the non-null cells.
pub proof fn lemma_column_report_counts(report: ColumnReport, num_rows: usize, col: ColumnData)
    requires
        describes(report, num_rows, col),
    ensures
        report.name == col.name,
        report.null_rate.numerator == col.null_count,
        report.null_rate.denominator == num_rows,
        report.duplicate_rate.denominator == num_rows,
        report.unique_count + report.duplicate_rate.numerator == col.null_flags@.filter(
            |f: bool| !f,
        ).len(),
        report.text_stats is Some <==> col.is_string,
        report.text_stats matches Some(t) ==> t.avg_length.denominator == col.null_flags@.filter(
            |f: bool| !f,
        ).len(),
{
    lemma_diagnosed_column_has_no_duplicates(report, num_rows, col);
    lemma_non_null_values_count(col.null_flags@);
    let vals = non_null_values(col.null_flags@);
    assert(vals.len() <= col.null_flags@.len()) by {
        col.null_flags@.lemma_filter_len(|f: bool| !f);
    }
}

/// The number of stand-in values of a column is its number of non-null cells.
pub proof fn lemma_non_null_values_count(flags: Seq<bool>)
    ensures
        non_null_values(flags).len() == flags.filter(|f: bool| !f).len(),
    decreases flags.len(),
{
    reveal_with_fuel(Seq::filter, 1);
    if flags.len() > 0 {
        lemma_non_null_values_count(flags.drop_last());
    }
}

/// The stand-in values of a column are pairwise distinct, so a diagnosed column
/// never reports a duplicate: its duplicate count is zero and its distinct count
/// is the number of its non-null cells.
pub proof fn lemma_diagnosed_column_has_no_duplicates(
    report: ColumnReport,
    num_rows: usize,
    col: ColumnData,
)
    requires
        describes(report, num_rows, col),
    ensures
        report.unique_count == col.null_flags@.filter(|f: bool| !f).len(),
        report.duplicate_rate.numerator == 0,
        report.duplicate_rate.denominator == num_rows,
        forall|x: Rate| !(#[trigger] report.suggestions@.contains(Suggestion::Deduplicate(x))),
{
    let vals = non_null_values(col.null_flags@);
    lemma_non_null_values_rows(col.null_flags@);
    lemma_non_null_values_count(col.null_flags@);
    vals.unique_seq_to_set();
    lemma_suggestions_characterized(report.null_rate, report.duplicate_rate, vals);
}

/// No stand-in value looks like HTML, so a diagnosed column never reports HTML:
/// its text statistics (if any) say so, and it gets no HTML suggestion.
pub proof fn lemma_diagnosed_column_has_no_html(report: ColumnReport, num_rows: usize, col: ColumnData)
    requires
        describes(report, num_rows, col),
    ensures
        report.text_stats matches Some(t) ==> !t.has_html,
        !report.suggestions@.contains(Suggestion::CleanHtml),
{
    let vals = non_null_values(col.null_flags@);
    lemma_non_null_values_rows(col.null_flags@);
    assert forall|j: int| 0 <= j < vals.len() implies !looks_like_html(#[trigger] vals[j]) by {
        let k = choose|k: nat| k < col.null_flags@.len() && #[trigger] vals[j] == stand_in(k);
        lemma_stand_in_has_no_angle(k);
    }
    let s = report.suggestions@;
    if s.contains(Suggestion::CleanHtml) {
        let i = choose|i: int| 0 <= i < s.len() && s[i] == Suggestion::CleanHtml;
        assert(false);
    }
}

/// The order in which suggestions are listed: nulls, duplicates, HTML.
pub open spec fn suggestion_rank(s: Suggestion) -> int {
    match s {
        Suggestion::DropOrImputeNulls(_) => 0,
        Suggestion::CheckNullDistribution(_) => 0,
        Suggestion::Deduplicate(_) => 1,
        Suggestion::CleanHtml => 2,
    }
}

/// What the suggestions of a column are, over the counts of its rates:
/// drop-or-impute exactly for a defined null rate above 3/10, carrying it;
/// check-the-distribution exactly for a defined null rate from 1/20 to 3/10,
/// carrying it; deduplicate exactly for a defined duplicate rate above 3/10,
/// carrying it; clean-HTML exactly when some value holds both `<` and `>`;
/// listed nulls first, then duplicates, then HTML, each at most once.
pub proof fn lemma_suggestions_characterized(
    null_rate: Rate,
    duplicate_rate: Rate,
    vals: Seq<Seq<char>>,
)
    ensures
        forall|x: Rate|
            #[trigger] suggestions_for(null_rate, duplicate_rate, vals).contains(
                Suggestion::DropOrImputeNulls(x),
            ) <==> (x == null_rate && null_rate.denominator != 0 && null_rate.numerator * 10 > 3
                * null_rate.denominator),
        forall|x: Rate|
            #[trigger] suggestions_for(null_rate, duplicate_rate, vals).contains(
                Suggestion::CheckNullDistribution(x),
            ) <==> (x == null_rate && null_rate.denominator != 0 && null_rate.numerator * 10 <= 3
                * null_rate.denominator && null_rate.numerator * 20 >= null_rate.denominator),
        forall|x: Rate|
            #[trigger] suggestions_for(null_rate, duplicate_rate, vals).contains(
                Suggestion::Deduplicate(x),
            ) <==> (x == duplicate_rate && duplicate_rate.denominator != 0
                && duplicate_rate.numerator * 10 > 3 * duplicate_rate.denominator),
        suggestions_for(null_rate, duplicate_rate, vals).contains(Suggestion::CleanHtml) <==> (exists|
            i: int,
        |
            0 <= i < vals.len() && (#[trigger] vals[i]).contains('<') && vals[i].contains('>')),
        forall|i: int, j: int|
            0 <= i < j < suggestions_for(null_rate, duplicate_rate, vals).len() ==> suggestion_rank(
                suggestions_for(null_rate, duplicate_rate, vals)[i],
            ) < suggestion_rank(suggestions_for(null_rate, duplicate_rate, vals)[j]),
{
    let s = suggestions_for(null_rate, duplicate_rate, vals);
    let nulls = if null_rate.above(3, 10) {
        seq![Suggestion::DropOrImputeNulls(null_rate)]
    } else if null_rate.at_least(1, 20) {
        seq![Suggestion::CheckNullDistribution(null_rate)]
    } else {
        seq![]
    };
    let duplicates = if duplicate_rate.above(3, 10) {
        seq![Suggestion::Deduplicate(duplicate_rate)]
    } else {
        seq![]
    };
    let html = if any_html(vals) {
        seq![Suggestion::CleanHtml]
    } else {
        seq![]
    };
    assert(s == nulls + duplicates + html);
    assert forall|k: int| 0 <= k < s.len() implies {
        ||| (k < nulls.len() && s[k] == nulls[k])
        ||| (nulls.len() <= k < nulls.len() + duplicates.len() && s[k] == duplicates[k
            - nulls.len()])
        ||| (nulls.len() + duplicates.len() <= k && s[k] == html[k - nulls.len()
            - duplicates.len()])
    } by {
        if k < nulls.len() {
        } else if k < nulls.len() + duplicates.len() {
        } else {
        }
    }
    assert forall|x: Rate|
        #[trigger] s.contains(Suggestion::DropOrImputeNulls(x)) <==> (x == null_rate
            && null_rate.denominator != 0 && null_rate.numerator * 10 > 3
            * null_rate.denominator) by {
        if x == null_rate && null_rate.above(3, 10) {
            assert(s[0] == Suggestion::DropOrImputeNulls(x));
        }
    }
    assert forall|x: Rate|
        #[trigger] s.contains(Suggestion::CheckNullDistribution(x)) <==> (x == null_rate
            && null_rate.denominator != 0 && null_rate.numerator * 10 <= 3
            * null_rate.denominator && null_rate.numerator * 20 >= null_rate.denominator) by {
        if x == null_rate && !null_rate.above(3, 10) && null_rate.at_least(1, 20) {
            assert(s[0] == Suggestion::CheckNullDistribution(x));
        }
    }
    assert forall|x: Rate|
        #[trigger] s.contains(Suggestion::Deduplicate(x)) <==> (x == duplicate_rate
            && duplicate_rate.denominator != 0 && duplicate_rate.numerator * 10 > 3
            * duplicate_rate.denominator) by {
        if x == duplicate_rate && duplicate_rate.above(3, 10) {
            assert(s[nulls.len() as int] == Suggestion::Deduplicate(x));
        }
    }
    if any_html(vals) {
        assert(s[(nulls.len() + duplicates.len()) as int] == Suggestion::CleanHtml);
        let i = choose|i: int| 0 <= i < vals.len() && #[trigger] looks_like_html(vals[i]);
        assert(vals[i].contains('<') && vals[i].contains('>'));
    } else {
        assert forall|i: int| 0 <= i < vals.len() implies !((#[trigger] vals[i]).contains('<')
            && vals[i].contains('>')) by {
            assert(!looks_like_html(vals[i]));
        }
    }
}

/// The suggestions agree with the grades: a drop-or-impute suggestion comes
/// only with a dangerous null rate, a deduplication suggestion only with a
/// dangerous duplicate rate, and, for a defined null rate, some null
/// suggestion is made exactly when the null rate is not good.
pub proof fn lemma_suggestions_agree_with_grades(
    null_rate: Rate,
    duplicate_rate: Rate,
    vals: Seq<Seq<char>>,
)
    ensures
        suggestions_for(null_rate, duplicate_rate, vals).contains(
            Suggestion::DropOrImputeNulls(null_rate),
        ) ==> health_status_of(null_rate, duplicate_rate).null_status == HealthScore::Danger,
        suggestions_for(null_rate, duplicate_rate, vals).contains(
            Suggestion::CheckNullDistribution(null_rate),
        ) ==> health_status_of(null_rate, duplicate_rate).null_status != HealthScore::Good,
        suggestions_for(null_rate, duplicate_rate, vals).contains(
            Suggestion::Deduplicate(duplicate_rate),
        ) ==> health_status_of(null_rate, duplicate_rate).duplicate_status == HealthScore::Danger,
        null_rate.denominator != 0 ==> ((health_status_of(null_rate, duplicate_rate).null_status
            == HealthScore::Good) <==> !(suggestions_for(null_rate, duplicate_rate, vals).contains(
            Suggestion::DropOrImputeNulls(null_rate),
        ) || suggestions_for(null_rate, duplicate_rate, vals).contains(
            Suggestion::CheckNullDistribution(null_rate),
        ))),
{
    let s = suggestions_for(null_rate, duplicate_rate, vals);
    let n = null_rate.numerator as int;
    let d = null_rate.denominator as int;
    let dn = duplicate_rate.numerator as int;
    let dd = duplicate_rate.denominator as int;
    if s.contains(Suggestion::DropOrImputeNulls(null_rate)) {
        assert(null_rate.above(3, 10));
    }
    if s.contains(Suggestion::CheckNullDistribution(null_rate)) {
        assert(null_rate.at_least(1, 20));
    }
    if s.contains(Suggestion::Deduplicate(duplicate_rate)) {
        let i = choose|i: int| 0 <= i < s.len() && s[i] == Suggestion::Deduplicate(duplicate_rate);
        assert(duplicate_rate.above(3, 10));
    }
    if null_rate.denominator != 0 {
        if null_rate.above(3, 10) {
            assert(s[0] == Suggestion::DropOrImputeNulls(null_rate));
        } else if null_rate.at_least(1, 20) {
            assert(s[0] == Suggestion::CheckNullDistribution(null_rate));
        }
    }
}

/// The rank of a grade: good, then warning, then danger.
pub open spec fn severity(score: HealthScore) -> int {
    match score {
        HealthScore::Good => 0,
        HealthScore::Warning => 1,
        HealthScore::Danger => 2,
    }
}

/// A defined rate below `p / q` stays below it when made smaller.
proof fn lemma_below_smaller(r1: Rate, r2: Rate, p: int, q: int)
    requires
        r1.denominator != 0,
        r1.numerator * r2.denominator <= r2.numerator * r1.denominator,
        r2.below(p, q),
        q > 0,
    ensures
        r1.below(p, q),
{
    let n1 = r1.numerator as int;
    let d1 = r1.denominator as int;
    let n2 = r2.numerator as int;
    let d2 = r2.denominator as int;
    assert(n1 * q < p * d1) by (nonlinear_arith)
        requires
            d1 > 0,
            d2 > 0,
            n1 >= 0,
            n1 * d2 <= n2 * d1,
            n2 * q < p * d2,
            q > 0,
    ;
}

/// Grades are monotone: of two defined rates, the larger never gets the
/// better grade; and an undefined rate is dangerous.
pub proof fn lemma_grade_monotone(r1: Rate, r2: Rate, good_p: int, good_q: int)
    requires
        good_q > 0,
        r1.denominator != 0,
        r1.numerator * r2.denominator <= r2.numerator * r1.denominator,
    ensures
        severity(grade(r1, good_p, good_q)) <= severity(grade(r2, good_p, good_q)),
        r2.denominator == 0 ==> grade(r2, good_p, good_q) == HealthScore::Danger,
{
    if r2.below(good_p, good_q) {
        lemma_below_smaller(r1, r2, good_p, good_q);
    }
    if r2.below(3, 10) {
        lemma_below_smaller(r1, r2, 3, 10);
    }
}

} // verus!
