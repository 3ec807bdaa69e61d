use data_guard::app::{HealthScore, HealthStatus, Rate, Suggestion, TextStats};
use data_guard::diagnosis::diagnose_batch;
use data_guard::diagnosis::engine::{
    calculate_duplicate_rate, calculate_null_rate, calculate_text_stats, check_batch_fits,
    check_column_fits, determine_health_status, diagnose_column, generate_suggestions, BatchData,
    ColumnData,
};
use data_guard::diagnosis::text::{contains_char, stand_in_byte_len, stand_in_value, string_byte_len};

fn rate(numerator: usize, denominator: usize) -> Rate {
    Rate { numerator, denominator }
}

fn strings(items: &[&str]) -> Vec<String> {
    items.iter().map(|s| s.to_string()).collect()
}

fn column(name: &str, is_string: bool, flags: &[bool]) -> ColumnData {
    ColumnData {
        name: name.to_string(),
        is_string,
        null_count: flags.iter().filter(|f| **f).count(),
        null_flags: flags.to_vec(),
    }
}

#[test]
fn rate_comparisons_follow_the_quotient() {
    assert!(!rate(1, 20).is_below(1, 20));
    assert!(rate(1, 20).is_at_least(1, 20));
    assert!(!rate(1, 20).is_above(1, 20));
    assert!(rate(4, 100).is_below(1, 20));
    assert!(rate(31, 100).is_above(3, 10));
    assert!(!rate(30, 100).is_above(3, 10));
}

#[test]
fn undefined_rate_compares_false() {
    let r = rate(0, 0);
    assert!(!r.is_below(1, 20));
    assert!(!r.is_above(3, 10));
    assert!(!r.is_at_least(1, 20));
}

#[test]
fn stand_in_values_name_their_row() {
    assert_eq!(stand_in_value(0), "value_0");
    assert_eq!(stand_in_value(12), "value_12");
    assert_eq!(stand_in_value(1000), "value_1000");
    assert_eq!(stand_in_byte_len(0), 7);
    assert_eq!(stand_in_byte_len(12), 8);
    assert_eq!(stand_in_byte_len(usize::MAX), 6 + usize::MAX.to_string().len());
}

#[test]
fn byte_length_counts_utf8_bytes() {
    assert_eq!(string_byte_len(&"abc".to_string()), 3);
    assert_eq!(string_byte_len(&"é".to_string()), 2);
    assert_eq!(string_byte_len(&"空值".to_string()), 6);
}

#[test]
fn contains_char_finds_characters() {
    assert!(contains_char(&"a<b".to_string(), '<'));
    assert!(!contains_char(&"ab".to_string(), '<'));
    assert!(contains_char(&"空<".to_string(), '<'));
    assert!(!contains_char(&String::new(), '>'));
}

#[test]
fn null_rate_counts_nulls_over_rows() {
    let col = column("c", false, &[false, true, false]);
    let (r, values) = calculate_null_rate(&col, 3);
    assert_eq!(r, rate(1, 3));
    assert_eq!(values, strings(&["value_0", "value_2"]));
}

#[test]
fn null_rate_uses_the_column_null_count() {
    let col = ColumnData { name: "c".to_string(), is_string: false, null_count: 5, null_flags: vec![false; 2] };
    let (r, values) = calculate_null_rate(&col, 10);
    assert_eq!(r, rate(5, 10));
    assert_eq!(values, strings(&["value_0", "value_1"]));
}

#[test]
fn duplicate_rate_counts_values_beyond_distinct_ones() {
    let values = strings(&["a", "b", "a", "a"]);
    let (r, unique) = calculate_duplicate_rate(&values, 5);
    assert_eq!(unique, 2);
    assert_eq!(r, rate(2, 5));
    let (r, unique) = calculate_duplicate_rate(&[], 0);
    assert_eq!(unique, 0);
    assert_eq!(r, rate(0, 0));
}

#[test]
fn health_thresholds() {
    let grade = |n: Rate, d: Rate| determine_health_status(n, d);
    assert_eq!(
        grade(rate(0, 20), rate(9, 100)),
        HealthStatus { null_status: HealthScore::Good, duplicate_status: HealthScore::Good }
    );
    assert_eq!(
        grade(rate(1, 20), rate(1, 10)),
        HealthStatus { null_status: HealthScore::Warning, duplicate_status: HealthScore::Warning }
    );
    assert_eq!(
        grade(rate(29, 100), rate(29, 100)),
        HealthStatus { null_status: HealthScore::Warning, duplicate_status: HealthScore::Warning }
    );
    assert_eq!(
        grade(rate(3, 10), rate(1, 2)),
        HealthStatus { null_status: HealthScore::Danger, duplicate_status: HealthScore::Danger }
    );
    assert_eq!(
        grade(rate(0, 0), rate(0, 0)),
        HealthStatus { null_status: HealthScore::Danger, duplicate_status: HealthScore::Danger }
    );
}

#[test]
fn suggestions_for_high_rates() {
    let s = generate_suggestions(rate(4, 10), rate(4, 10), &[]);
    assert_eq!(s, vec![Suggestion::DropOrImputeNulls(rate(4, 10)), Suggestion::Deduplicate(rate(4, 10))]);
}

#[test]
fn suggestions_for_moderate_nulls() {
    let s = generate_suggestions(rate(3, 10), rate(3, 10), &[]);
    assert_eq!(s, vec![Suggestion::CheckNullDistribution(rate(3, 10))]);
    let s = generate_suggestions(rate(1, 20), rate(0, 20), &[]);
    assert_eq!(s, vec![Suggestion::CheckNullDistribution(rate(1, 20))]);
    let s = generate_suggestions(rate(4, 100), rate(0, 100), &[]);
    assert!(s.is_empty());
}

#[test]
fn suggestions_for_html() {
    let values = strings(&["plain", "<b>bold</b>"]);
    let s = generate_suggestions(rate(0, 2), rate(0, 2), &values);
    assert_eq!(s, vec![Suggestion::CleanHtml]);
    let only_open = strings(&["a < b", "c"]);
    assert!(generate_suggestions(rate(0, 2), rate(0, 2), &only_open).is_empty());
}

#[test]
fn suggestions_for_empty_batch() {
    let s = generate_suggestions(rate(0, 0), rate(0, 0), &[]);
    assert!(s.is_empty());
}

#[test]
fn text_stats_average_bytes() {
    let values = strings(&["ab", "<p>", "é"]);
    let t = calculate_text_stats(&values);
    assert_eq!(t, TextStats { avg_length: rate(7, 3), has_html: true });
    let t = calculate_text_stats(&[]);
    assert_eq!(t, TextStats { avg_length: rate(0, 0), has_html: false });
}

#[test]
fn diagnose_string_column() {
    let col = column("name", true, &[false, true, true, false]);
    let report = diagnose_column(&col, 4);
    assert_eq!(report.name, "name");
    assert_eq!(report.null_rate, rate(2, 4));
    assert_eq!(report.duplicate_rate, rate(0, 4));
    assert_eq!(report.unique_count, 2);
    assert_eq!(
        report.health_status,
        HealthStatus { null_status: HealthScore::Danger, duplicate_status: HealthScore::Good }
    );
    assert_eq!(report.suggestions, vec![Suggestion::DropOrImputeNulls(rate(2, 4))]);
    assert_eq!(report.text_stats, Some(TextStats { avg_length: rate(14, 2), has_html: false }));
}

#[test]
fn diagnose_batch_reports_every_column_in_order() {
    let batch = BatchData {
        num_rows: 20,
        columns: vec![
            column("id", false, &[false; 20]),
            column("note", true, &{
                let mut f = [false; 20];
                f[3] = true;
                f
            }),
        ],
    };
    assert!(check_batch_fits(&batch));
    let reports = diagnose_batch(&batch);
    assert_eq!(reports.len(), 2);
    assert_eq!(reports[0].name, "id");
    assert_eq!(reports[0].null_rate, rate(0, 20));
    assert_eq!(reports[0].unique_count, 20);
    assert_eq!(reports[0].text_stats, None);
    assert!(reports[0].suggestions.is_empty());
    assert_eq!(reports[1].name, "note");
    assert_eq!(reports[1].null_rate, rate(1, 20));
    assert_eq!(reports[1].health_status.null_status, HealthScore::Warning);
    assert_eq!(reports[1].suggestions, vec![Suggestion::CheckNullDistribution(rate(1, 20))]);
    // value_0 .. value_9 are 7 bytes, value_10 .. value_19 are 8 bytes; row 3 is null.
    assert_eq!(reports[1].text_stats, Some(TextStats { avg_length: rate(9 * 7 + 10 * 8, 19), has_html: false }));
}

#[test]
fn diagnose_empty_batch() {
    let batch = BatchData { num_rows: 0, columns: vec![column("x", true, &[])] };
    let reports = diagnose_batch(&batch);
    assert_eq!(reports[0].null_rate, rate(0, 0));
    assert_eq!(
        reports[0].health_status,
        HealthStatus { null_status: HealthScore::Danger, duplicate_status: HealthScore::Danger }
    );
    assert!(reports[0].suggestions.is_empty());
    assert_eq!(reports[0].text_stats, Some(TextStats { avg_length: rate(0, 0), has_html: false }));
}

#[test]
fn diagnosed_columns_never_report_duplicates_or_html() {
    let col = column("c", true, &[false, false, true, false, false]);
    let report = diagnose_column(&col, 5);
    assert_eq!(report.duplicate_rate.numerator, 0);
    assert_eq!(report.unique_count, 4);
    assert!(!report.text_stats.unwrap().has_html);
    assert!(!report.suggestions.contains(&Suggestion::CleanHtml));
}

#[test]
fn non_string_columns_always_fit() {
    assert!(check_column_fits(&column("n", false, &[false; 3])));
    assert!(check_column_fits(&column("s", true, &[false; 3])));
}
