use chronograph::history::{history_sections, HistoryMode, HistoryRow};

fn row(p: &str, proc_: &str, secs: i64) -> HistoryRow {
    HistoryRow { period: p.to_string(), process: proc_.to_string(), total_secs: secs }
}

#[test]
fn rows_are_grouped_by_period_in_order() {
    let rows = vec![
        row("2024-05-02", "code", 300),
        row("2024-05-02", "chrome", 100),
        row("2024-05-01", "code", 50),
        row("2024-04-30", "slack", 20),
        row("2024-04-30", "code", 10),
    ];
    let secs = history_sections(rows);
    assert_eq!(secs.len(), 3);
    assert_eq!(secs[0].period, "2024-05-02");
    assert_eq!(secs[0].rows, vec![("code".to_string(), 300), ("chrome".to_string(), 100)]);
    assert_eq!(secs[1].period, "2024-05-01");
    assert_eq!(secs[1].rows, vec![("code".to_string(), 50)]);
    assert_eq!(secs[2].period, "2024-04-30");
    assert_eq!(secs[2].rows.len(), 2);
}

#[test]
fn a_period_seen_again_later_starts_a_new_heading() {
    let rows = vec![row("2024-05", "a", 1), row("2024-04", "b", 2), row("2024-05", "c", 3)];
    let secs = history_sections(rows);
    assert_eq!(secs.len(), 3);
    let flat: Vec<(String, String, i64)> = secs
        .iter()
        .flat_map(|s| s.rows.iter().map(move |(p, t)| (s.period.clone(), p.clone(), *t)))
        .collect();
    assert_eq!(
        flat,
        vec![
            ("2024-05".to_string(), "a".to_string(), 1),
            ("2024-04".to_string(), "b".to_string(), 2),
            ("2024-05".to_string(), "c".to_string(), 3)
        ]
    );
}

#[test]
fn no_rows_no_sections() {
    assert!(history_sections(Vec::new()).is_empty());
    assert_ne!(HistoryMode::Daily, HistoryMode::Monthly);
}
