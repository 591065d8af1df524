use async_log::record::{Level, LevelFilter};
use async_log::span::Sink;
use async_log::Span;

#[test]
fn current_sink_follows_the_threshold_of_the_log_crate() {
    log::set_max_level(log::LevelFilter::Info);
    let sink = Sink::current();
    assert!(sink.records().is_empty());
    assert!(sink.enabled(Level::Error));
    assert!(sink.enabled(Level::Info));
    assert!(!sink.enabled(Level::Debug));
    assert!(!sink.enabled(Level::Trace));

    log::set_max_level(log::LevelFilter::Off);
    let mut sink = Sink::current();
    assert!(!sink.enabled(Level::Error));
    let mut span = Span::new("quiet", &mut sink);
    span.close(&mut sink);
    assert!(sink.records().is_empty());

    log::set_max_level(log::LevelFilter::Trace);
    let mut sink = Sink::current();
    assert_eq!(sink.enabled(Level::Trace), log::STATIC_MAX_LEVEL >= log::LevelFilter::Trace);
    sink.set_max_level(LevelFilter::Off);
    assert!(!sink.enabled(Level::Error));
}
