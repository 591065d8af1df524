use async_log::record::{Field, Level, LevelFilter, Record, Value};
use async_log::span::{print, span, span_with_args, Sink};
use async_log::Span;

fn open_sink() -> Sink {
    Sink::new(LevelFilter::Trace, LevelFilter::Trace)
}

fn messages(sink: &Sink) -> Vec<String> {
    sink.records().iter().map(|record| record.message.clone()).collect()
}

fn note(sink: &mut Sink, message: &str) {
    print(Level::Info, message, &vec![], sink);
}

#[test]
fn span_new_writes_the_start_marker() {
    let mut sink = open_sink();
    let span = Span::new("main", &mut sink);
    assert!(span.active());
    assert_eq!(span.args(), "main");
    assert_eq!(
        sink.records(),
        &vec![Record {
            level: Level::Trace,
            target: "async_log".to_string(),
            message: "main, span_mark=start".to_string(),
            fields: vec![],
            module: Some("async_log".to_string()),
            file: None,
            line: None,
        }]
    );
}

#[test]
fn span_with_args_puts_the_arguments_after_the_name() {
    let mut sink = open_sink();
    let span = Span::with_args("inner", "x=foo", &mut sink);
    assert_eq!(span.args(), "inner, x=foo");
    assert_eq!(messages(&sink), vec!["inner, x=foo, span_mark=start"]);
}

#[test]
fn span_close_writes_the_end_marker_over_the_same_text() {
    let mut sink = open_sink();
    let mut span = Span::with_args("inner", "x=foo", &mut sink);
    span.close(&mut sink);
    assert!(!span.active());
    assert_eq!(
        messages(&sink),
        vec!["inner, x=foo, span_mark=start", "inner, x=foo, span_mark=end"]
    );
    assert_eq!(sink.records()[1].level, Level::Trace);
    assert_eq!(sink.records()[1].target, "async_log");
}

#[test]
fn span_close_writes_the_end_marker_once() {
    let mut sink = open_sink();
    let mut span = Span::new("main", &mut sink);
    span.close(&mut sink);
    span.close(&mut sink);
    span.close(&mut sink);
    assert_eq!(messages(&sink), vec!["main, span_mark=start", "main, span_mark=end"]);
    assert_eq!(span.args(), "main");
}

#[test]
fn span_writes_nothing_to_a_sink_that_takes_no_trace() {
    for (fixed, running) in [
        (LevelFilter::Trace, LevelFilter::Debug),
        (LevelFilter::Debug, LevelFilter::Trace),
        (LevelFilter::Off, LevelFilter::Off),
        (LevelFilter::Trace, LevelFilter::Off),
    ] {
        let mut sink = Sink::new(fixed, running);
        let mut span = Span::new("main", &mut sink);
        assert!(span.active());
        span.close(&mut sink);
        assert!(!span.active());
        assert!(sink.records().is_empty());
    }
}

#[test]
fn span_markers_are_decided_one_by_one() {
    let mut sink = Sink::new(LevelFilter::Trace, LevelFilter::Off);
    let mut span = Span::new("main", &mut sink);
    sink.set_max_level(LevelFilter::Trace);
    span.close(&mut sink);
    assert_eq!(messages(&sink), vec!["main, span_mark=end"]);
}

#[test]
fn nested_spans_close_in_reverse_order() {
    let mut sink = open_sink();
    let mut outer = Span::new("A", &mut sink);
    let mut inner = Span::new("B", &mut sink);
    inner.close(&mut sink);
    outer.close(&mut sink);
    assert_eq!(
        messages(&sink),
        vec!["A, span_mark=start", "B, span_mark=start", "B, span_mark=end", "A, span_mark=end"]
    );
}

#[test]
fn span_runs_the_block_between_the_markers() {
    let mut sink = open_sink();
    let answer = span("main", &mut sink, |sink| {
        note(sink, "working");
        42
    });
    assert_eq!(answer, 42);
    assert_eq!(messages(&sink), vec!["main, span_mark=start", "working", "main, span_mark=end"]);
}

#[test]
fn span_closes_after_an_early_return() {
    fn work(sink: &mut Sink, stop: bool) -> Result<u8, String> {
        if stop {
            return Err("stopped".to_string());
        }
        note(sink, "not reached");
        Ok(1)
    }

    let mut sink = open_sink();
    let res = span("main", &mut sink, |sink| work(sink, true));
    assert_eq!(res, Err("stopped".to_string()));
    assert_eq!(messages(&sink), vec!["main, span_mark=start", "main, span_mark=end"]);
}

#[test]
fn span_with_args_runs_the_block_between_the_markers() {
    let mut sink = open_sink();
    span_with_args("level", "depth=1", &mut sink, |sink| note(sink, "inside"));
    assert_eq!(
        messages(&sink),
        vec!["level, depth=1, span_mark=start", "inside", "level, depth=1, span_mark=end"]
    );
}

#[test]
fn nested_span_blocks_close_in_reverse_order() {
    let mut sink = open_sink();
    span("A", &mut sink, |sink| {
        span("B", sink, |sink| note(sink, "deep"));
        note(sink, "back");
    });
    assert_eq!(
        messages(&sink),
        vec![
            "A, span_mark=start",
            "B, span_mark=start",
            "deep",
            "B, span_mark=end",
            "back",
            "A, span_mark=end",
        ]
    );
}

#[test]
fn print_writes_the_fields_as_tokens() {
    let mut sink = open_sink();
    let fields = vec![
        Field { key: "path".to_string(), value: Value::Text("/tmp/foob".to_string()) },
        Field { key: "task_id".to_string(), value: Value::Number(7) },
    ];
    print(Level::Warn, "runtime::fs::read_to_string", &fields, &mut sink);
    assert_eq!(messages(&sink), vec!["runtime::fs::read_to_string, path=/tmp/foob, task_id=7"]);
    assert_eq!(sink.records()[0].level, Level::Warn);
    assert!(sink.records()[0].fields.is_empty());
}

#[test]
fn print_lets_pass_what_both_thresholds_admit() {
    let levels = [Level::Error, Level::Warn, Level::Info, Level::Debug, Level::Trace];
    let filters = [
        LevelFilter::Off,
        LevelFilter::Error,
        LevelFilter::Warn,
        LevelFilter::Info,
        LevelFilter::Debug,
        LevelFilter::Trace,
    ];
    for (l, level) in levels.iter().enumerate() {
        for (f, fixed) in filters.iter().enumerate() {
            for (g, running) in filters.iter().enumerate() {
                let mut sink = Sink::new(*fixed, *running);
                print(*level, "m", &vec![], &mut sink);
                let passes = l + 1 <= f && l + 1 <= g;
                assert_eq!(sink.enabled(*level), passes);
                assert_eq!(sink.records().len(), if passes { 1 } else { 0 });
            }
        }
    }
}

#[test]
fn sink_log_keeps_a_record_as_it_is() {
    let mut sink = Sink::new(LevelFilter::Trace, LevelFilter::Info);
    let record = Record {
        level: Level::Info,
        target: "app".to_string(),
        message: "hello".to_string(),
        fields: vec![Field { key: "k".to_string(), value: Value::Number(1) }],
        module: Some("app::m".to_string()),
        file: Some("src/m.rs".to_string()),
        line: Some(3),
    };
    sink.log(record.clone());
    let mut quiet = record.clone();
    quiet.level = Level::Debug;
    sink.log(quiet);
    assert_eq!(sink.records(), &vec![record]);
}

#[test]
fn sink_drain_hands_out_the_records_and_empties_the_sink() {
    let mut sink = open_sink();
    note(&mut sink, "one");
    note(&mut sink, "two");
    let records = sink.drain();
    assert_eq!(records.len(), 2);
    assert_eq!(records[0].message, "one");
    assert_eq!(records[1].message, "two");
    assert!(sink.records().is_empty());
    note(&mut sink, "three");
    assert_eq!(messages(&sink), vec!["three"]);
}

#[test]
fn level_order_is_error_first() {
    assert_eq!(Level::Error.ordinal(), 1);
    assert_eq!(Level::Trace.ordinal(), 5);
    assert_eq!(LevelFilter::Off.ordinal(), 0);
    assert_eq!(LevelFilter::Trace.ordinal(), 5);
    assert!(LevelFilter::Info.allows(Level::Warn));
    assert!(LevelFilter::Info.allows(Level::Info));
    assert!(!LevelFilter::Info.allows(Level::Debug));
    assert!(!LevelFilter::Off.allows(Level::Error));
}
