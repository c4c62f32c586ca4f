use nub::cli::secret::{secret_table, shown_value, SecretRow};
use nub::cli::stack::{log_step, remove_prompt, stack_table, LogStep, StackRow, StreamChunk};

fn step_text(s: LogStep) -> (&'static str, String) {
    match s {
        LogStep::Stdout(d) => ("out", d),
        LogStep::Stderr(d) => ("err", d),
        LogStep::Fail(m) => ("fail", m),
        LogStep::Stop => ("stop", String::new()),
        LogStep::Skip => ("skip", String::new()),
    }
}

#[test]
fn log_chunks_go_to_the_right_stream() {
    let out = step_text(log_step(StreamChunk::Log { stderr: false, data: "hello\n".into() }));
    assert_eq!(out, ("out", "hello\n".to_string()));
    let err = step_text(log_step(StreamChunk::Log { stderr: true, data: "oops".into() }));
    assert_eq!(err, ("err", "oops".to_string()));
}

#[test]
fn lagging_chunks_print_a_notice() {
    let s = step_text(log_step(StreamChunk::Lagging { dropped: 17 }));
    assert_eq!(s, ("err", "[nub: dropped 17 log chunks under backpressure]\n".to_string()));
}

#[test]
fn end_of_stream_stops_or_fails() {
    assert_eq!(step_text(log_step(StreamChunk::End { ok: true, err: None })).0, "stop");
    let f = step_text(log_step(StreamChunk::End { ok: false, err: Some("engine gone".into()) }));
    assert_eq!(f, ("fail", "stream ended: engine gone".to_string()));
    let g = step_text(log_step(StreamChunk::End { ok: false, err: None }));
    assert_eq!(g, ("fail", "stream ended: stream ended without success".to_string()));
    assert_eq!(step_text(log_step(StreamChunk::Other)).0, "skip");
}

#[test]
fn stack_table_pads_columns() {
    let rows = vec![
        StackRow { name: "web".into(), status: "running".into(), container_count: 3, modified_at: "2024-01-01".into() },
        StackRow { name: "database".into(), status: "up".into(), container_count: 12, modified_at: "2024-02-02".into() },
    ];
    let t = stack_table(&rows);
    assert_eq!(
        t,
        vec![
            "NAME      STATUS   CONTAINERS  MODIFIED".to_string(),
            "web       running           3  2024-01-01".to_string(),
            "database  up               12  2024-02-02".to_string(),
        ]
    );
}

#[test]
fn stack_table_has_minimum_widths() {
    let rows = vec![StackRow { name: "a".into(), status: "b".into(), container_count: 0, modified_at: "m".into() }];
    let t = stack_table(&rows);
    assert_eq!(t[0], "NAME  STATUS  CONTAINERS  MODIFIED");
    assert_eq!(t[1], "a     b                0  m");
    assert_eq!(stack_table(&Vec::new()).len(), 1);
}

#[test]
fn remove_prompt_names_the_stack() {
    assert_eq!(
        remove_prompt("web"),
        "remove stack `web`? containers will be stopped and the manifest deleted"
    );
}

#[test]
fn secret_table_lines() {
    let rows = vec![
        SecretRow { name: "db_password".into(), size: 24, modified_at: "2024-03-03".into() },
        SecretRow { name: "k".into(), size: 1234567, modified_at: "x".into() },
    ];
    assert_eq!(
        secret_table(&rows),
        vec!["db_password      24B  2024-03-03".to_string(), "k            1234567B  x".to_string()]
    );
    let short = vec![SecretRow { name: "a".into(), size: 0, modified_at: "t".into() }];
    assert_eq!(secret_table(&short), vec!["a          0B  t".to_string()]);
}

#[test]
fn shown_value_ends_with_newline() {
    assert_eq!(shown_value("abc"), "abc\n");
    assert_eq!(shown_value("abc\n"), "abc\n");
    assert_eq!(shown_value(""), "\n");
}
