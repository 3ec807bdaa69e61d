use data_guard::app::{AppState, ColumnReport, FileInfo, HealthScore, HealthStatus, Rate};
use data_guard::diagnosis::engine::{BatchData, ColumnData};
use data_guard::ui::main_window::{
    build_diagnosis_report, column_has_issues, health_color, overall_score, score_label,
    DataGuardApp, DiagnosisOutcome, Screen,
};
use data_guard::ui::table_view::{truncate_cell, TableView};
use std::path::PathBuf;

fn report_with(null_status: HealthScore, duplicate_status: HealthScore) -> ColumnReport {
    ColumnReport {
        name: "c".to_string(),
        null_rate: Rate { numerator: 0, denominator: 1 },
        duplicate_rate: Rate { numerator: 0, denominator: 1 },
        unique_count: 1,
        health_status: HealthStatus { null_status, duplicate_status },
        suggestions: vec![],
        text_stats: None,
    }
}

fn file_info() -> FileInfo {
    FileInfo { path: PathBuf::from("data.parquet"), row_count: 3, column_count: 1, file_size: 42 }
}

#[test]
fn app_state_starts_empty() {
    let s = AppState::new();
    assert!(s.file_path.is_none());
    assert!(s.file_info.is_none());
    assert!(s.diagnosis_report.is_none());
}

#[test]
fn overall_score_cases() {
    let (good, warning, danger) = (HealthScore::Good, HealthScore::Warning, HealthScore::Danger);
    assert_eq!(overall_score(&[]), good);
    assert_eq!(overall_score(&[report_with(good, good), report_with(good, good)]), good);
    assert_eq!(overall_score(&[report_with(good, good), report_with(warning, good)]), warning);
    assert_eq!(overall_score(&[report_with(warning, good), report_with(good, danger)]), danger);
}

#[test]
fn report_concatenates_batches() {
    let batch = |rows: usize, flags: Vec<bool>| BatchData {
        num_rows: rows,
        columns: vec![ColumnData {
            name: "v".to_string(),
            is_string: false,
            null_count: flags.iter().filter(|f| **f).count(),
            null_flags: flags,
        }],
    };
    let batches = vec![batch(2, vec![false, false]), batch(2, vec![true, true])];
    let report = build_diagnosis_report(file_info(), &batches);
    assert_eq!(report.column_reports.len(), 2);
    assert_eq!(report.column_reports[0].null_rate, Rate { numerator: 0, denominator: 2 });
    assert_eq!(report.column_reports[1].null_rate, Rate { numerator: 2, denominator: 2 });
    assert_eq!(report.overall_score, HealthScore::Danger);
    assert_eq!(report.file_info.file_size, 42);
}

#[test]
fn colors_and_labels() {
    assert_eq!(health_color(&HealthScore::Good), 0xa6e3a1);
    assert_eq!(health_color(&HealthScore::Warning), 0xf9e2af);
    assert_eq!(health_color(&HealthScore::Danger), 0xf38ba8);
    assert_eq!(score_label(&HealthScore::Good), "✅ Healthy");
    assert_eq!(score_label(&HealthScore::Warning), "⚠️ Warning");
    assert_eq!(score_label(&HealthScore::Danger), "❌ Issues Found");
    assert!(!column_has_issues(&report_with(HealthScore::Good, HealthScore::Good)));
    assert!(column_has_issues(&report_with(HealthScore::Good, HealthScore::Warning)));
}

#[test]
fn app_runs_a_diagnosis() {
    let mut app = DataGuardApp::new();
    assert_eq!(app.screen(), Screen::Empty);
    assert_eq!(app.request_diagnosis(), None);
    assert!(!app.loading());
    app.select_file(PathBuf::from("data.parquet"));
    assert!(app.loading());
    assert_eq!(app.screen(), Screen::Loading);
    let report = build_diagnosis_report(file_info(), &vec![]);
    app.finish_diagnosis(DiagnosisOutcome::Finished(report));
    assert!(!app.loading());
    assert_eq!(app.screen(), Screen::Report);
    assert!(app.state().diagnosis_report.is_some());
    assert_eq!(app.state().file_path, Some(PathBuf::from("data.parquet")));
}

#[test]
fn app_shows_failures() {
    let mut app = DataGuardApp::new();
    app.select_file(PathBuf::from("x.parquet"));
    app.finish_diagnosis(DiagnosisOutcome::Failed("no such file".to_string()));
    assert_eq!(app.screen(), Screen::Error("no such file".to_string()));
    assert_eq!(app.error_message(), Some("no such file".to_string()));
    assert_eq!(app.request_diagnosis(), Some(PathBuf::from("x.parquet")));
    assert_eq!(app.screen(), Screen::Loading);
    assert_eq!(app.error_message(), None);
    app.finish_diagnosis(DiagnosisOutcome::TaskFailed("panicked".to_string()));
    assert_eq!(app.screen(), Screen::Error("Task error: panicked".to_string()));
}

#[test]
fn short_cells_are_shown_in_full() {
    assert_eq!(truncate_cell("hello"), "hello");
    let fifty = "a".repeat(50);
    assert_eq!(truncate_cell(&fifty), fifty);
}

#[test]
fn long_cells_are_cut_at_fifty_bytes() {
    let long = "b".repeat(60);
    assert_eq!(truncate_cell(&long), format!("{}...", "b".repeat(50)));
    let wide = format!("{}{}", "é".repeat(25), "tail");
    assert_eq!(truncate_cell(&wide), format!("{}...", "é".repeat(25)));
}

#[test]
fn table_view_shows_header_and_rows() {
    let t = TableView::new(
        vec!["a".to_string(), "b".to_string()],
        vec![vec!["1".to_string(), "x".repeat(51)], vec!["2".to_string(), "y".to_string()]],
    );
    assert_eq!(t.header(), vec!["a".to_string(), "b".to_string()]);
    let rows = t.shown_rows();
    assert_eq!(rows[0], vec!["1".to_string(), format!("{}...", "x".repeat(50))]);
    assert_eq!(rows[1], vec!["2".to_string(), "y".to_string()]);
}
