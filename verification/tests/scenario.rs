use async_log::record::{Level, LevelFilter, Record};
use async_log::span::{span, span_with_args, Sink};
use async_log::text::fill;
use async_log::Logger;

fn info(sink: &mut Sink, message: String) {
    sink.log(Record {
        level: Level::Info,
        target: "trace".to_string(),
        message,
        fields: vec![],
        module: Some("trace".to_string()),
        file: Some("examples/trace.rs".to_string()),
        line: Some(18),
    });
}

#[test]
fn records_of_nested_spans_come_out_in_order_with_their_task() {
    let mut sink = Sink::new(LevelFilter::Trace, LevelFilter::Trace);
    span("main", &mut sink, |sink| {
        let x = "foo";
        info(sink, fill("this {}", &vec![x.to_string()]));
        let args = fill("x={}", &vec![x.to_string()]);
        span_with_args("inner", &args, sink, |sink| {
            info(sink, fill("we must go deeper {}", &vec![x.to_string()]));
        });
    });

    let logger = Logger::wrap((), || (7, Some(1)), 4).structured(false);
    let seen: Vec<String> = sink
        .drain()
        .iter()
        .map(|record| {
            if record.target == "async_log" {
                record.message.clone()
            } else {
                logger.log(record, true, "ThreadId(2)").unwrap().message
            }
        })
        .collect();

    assert_eq!(
        seen,
        vec![
            "main, span_mark=start",
            "this foo, task_id=7, task_parent_id=1, thread_id=2",
            "inner, x=foo, span_mark=start",
            "we must go deeper foo, task_id=7, task_parent_id=1, thread_id=2",
            "inner, x=foo, span_mark=end",
            "main, span_mark=end",
        ]
    );
}

#[test]
fn every_record_through_the_logger_carries_its_task() {
    let mut sink = Sink::new(LevelFilter::Trace, LevelFilter::Trace);
    span("main", &mut sink, |sink| info(sink, "this foo".to_string()));
    let logger = Logger::wrap((), || (7, None), 4).structured(false);
    let seen: Vec<String> =
        sink.drain().iter().map(|record| logger.log(record, true, "ThreadId(2)").unwrap().message).collect();
    assert_eq!(
        seen,
        vec![
            "main, span_mark=start, task_id=7, thread_id=2",
            "this foo, task_id=7, thread_id=2",
            "main, span_mark=end, task_id=7, thread_id=2",
        ]
    );
}
