//! Spans: a start marker when a piece of work begins, an end marker when it
//! is over, both written to the sink that stands for the active logger.

use crate::augment::{append_tokens, lemma_field_views_push, tokens};
use crate::record::{
    field_views, record_views, Field, FieldView, Level, LevelFilter, Record, RecordView, Value,
    ValueView,
};
use vstd::prelude::*;

verus! {

/// Where markers go: two severity thresholds, the one fixed when the
/// program was built and the one set while it runs, and the records that
/// passed both, oldest first.
#[derive(Debug)]
pub struct Sink {
    static_max: LevelFilter,
    max: LevelFilter,
    records: Vec<Record>,
}

/// What a [`Sink`] holds.
pub struct SinkView {
    pub static_max: LevelFilter,
    pub max: LevelFilter,
    pub records: Seq<RecordView>,
}

impl SinkView {
    /// Whether a record of severity `level` passes both thresholds.
    pub open spec fn admits(self, level: Level) -> bool {
        self.static_max.admits(level) && self.max.admits(level)
    }
}

impl View for Sink {
    type V = SinkView;

    closed spec fn view(&self) -> SinkView {
        SinkView {
            static_max: self.static_max,
            max: self.max,
            records: record_views(self.records@),
        }
    }
}

/// The record that `print` writes for a message and its fields: the fields
/// follow the message as tokens.
pub open spec fn printed_record(level: Level, message: Seq<char>, fields: Seq<FieldView>)
    -> RecordView {
    RecordView {
        level,
        target: "async_log"@,
        message: message + tokens(fields),
        fields: Seq::empty(),
        module: Some("async_log"@),
        file: None,
        line: None,
    }
}

/// The sink after `record` was handed to it: one record more where the
/// severity passes both thresholds, unchanged where it does not.
pub open spec fn logged(sink: SinkView, record: RecordView) -> SinkView {
    if sink.admits(record.level) {
        SinkView { records: sink.records.push(record), ..sink }
    } else {
        sink
    }
}

/// The sink after `print`.
pub open spec fn printed(sink: SinkView, level: Level, message: Seq<char>, fields: Seq<FieldView>)
    -> SinkView {
    logged(sink, printed_record(level, message, fields))
}

/// The one field of a marker.
pub open spec fn span_mark(mark: Seq<char>) -> Seq<FieldView> {
    seq![FieldView { key: "span_mark"@, value: ValueView::Text(mark) }]
}

/// The sink after a span over `text` has started.
pub open spec fn opened(sink: SinkView, text: Seq<char>) -> SinkView {
    printed(sink, Level::Trace, text, span_mark("start"@))
}

/// The sink after a span over `text` has ended.
pub open spec fn closed(sink: SinkView, text: Seq<char>) -> SinkView {
    printed(sink, Level::Trace, text, span_mark("end"@))
}

/// The sink after `more` records were written to it.
pub open spec fn extended(sink: SinkView, more: Seq<RecordView>) -> SinkView {
    SinkView { records: sink.records + more, ..sink }
}

/// The threshold that the `log` crate was built with, `log::STATIC_MAX_LEVEL`,
/// as a threshold of this crate. Nothing is claimed of which one it is.
#[verifier::external_body]
fn static_max_level() -> LevelFilter {
    match log::STATIC_MAX_LEVEL {
        log::LevelFilter::Off => LevelFilter::Off,
        log::LevelFilter::Error => LevelFilter::Error,
        log::LevelFilter::Warn => LevelFilter::Warn,
        log::LevelFilter::Info => LevelFilter::Info,
        log::LevelFilter::Debug => LevelFilter::Debug,
        log::LevelFilter::Trace => LevelFilter::Trace,
    }
}

/// The threshold that the `log` crate holds at this moment, `log::max_level()`,
/// as a threshold of this crate. Nothing is claimed of which one it is.
#[verifier::external_body]
fn max_level() -> LevelFilter {
    match log::max_level() {
        log::LevelFilter::Off => LevelFilter::Off,
        log::LevelFilter::Error => LevelFilter::Error,
        log::LevelFilter::Warn => LevelFilter::Warn,
        log::LevelFilter::Info => LevelFilter::Info,
        log::LevelFilter::Debug => LevelFilter::Debug,
        log::LevelFilter::Trace => LevelFilter::Trace,
    }
}

impl Sink {
    /// An empty sink with the thresholds that the `log` crate has now,
    /// whichever they are.
    pub fn current() -> (sink: Sink)
        ensures
            sink@.records == Seq::<RecordView>::empty(),
    {
        Sink::new(static_max_level(), max_level())
    }

    /// An empty sink with the given thresholds.
    pub fn new(static_max: LevelFilter, max: LevelFilter) -> (sink: Sink)
        ensures
            sink@ == (SinkView { static_max, max, records: Seq::empty() }),
    {
        let sink = Sink { static_max, max, records: Vec::new() };
        assert(record_views(sink.records@) == Seq::<RecordView>::empty());
        sink
    }

    /// Whether a record of severity `level` passes both thresholds.
    pub fn enabled(&self, level: Level) -> (r: bool)
        ensures
            r == self@.admits(level),
    {
        self.static_max.allows(level) && self.max.allows(level)
    }

    /// Sets the threshold that can change while the program runs.
    pub fn set_max_level(&mut self, max: LevelFilter)
        ensures
            final(self)@ == (SinkView { max, ..old(self)@ }),
    {
        self.max = max;
    }

    /// Hands `record` to the sink, which keeps it if its severity passes
    /// both thresholds.
    pub fn log(&mut self, record: Record)
        ensures
            final(self)@ == logged(old(self)@, record@),
    {
        if self.enabled(record.level) {
            assert(record_views(self.records@.push(record)) == record_views(self.records@).push(
                record@,
            ));
            self.records.push(record);
        }
    }

    /// The records written so far, oldest first.
    pub fn records(&self) -> (records: &Vec<Record>)
        ensures
            record_views(records@) == self@.records,
    {
        &self.records
    }

    /// Takes the records written so far out of the sink, oldest first.
    pub fn drain(&mut self) -> (records: Vec<Record>)
        ensures
            record_views(records@) == old(self)@.records,
            final(self)@ == (SinkView { records: Seq::empty(), ..old(self)@ }),
    {
        let mut records: Vec<Record> = Vec::new();
        std::mem::swap(&mut records, &mut self.records);
        assert(record_views(self.records@) == Seq::<RecordView>::empty());
        records
    }
}

/// Writes one record to `sink` if its severity passes the thresholds: the
/// message, followed by `key_values` as tokens.
pub fn print(level: Level, msg: &str, key_values: &Vec<Field>, sink: &mut Sink)
    ensures
        final(sink)@ == printed(old(sink)@, level, msg@, field_views(key_values@)),
{
    if sink.enabled(level) {
        let mut message = msg.to_owned();
        append_tokens(&mut message, key_values);
        let record = Record {
            level,
            target: "async_log".to_owned(),
            message,
            fields: Vec::new(),
            module: Some("async_log".to_owned()),
            file: None,
            line: None,
        };
        assert(field_views(record.fields@) == Seq::<FieldView>::empty());
        sink.log(record);
    }
}

fn mark_field(mark: &str) -> (fields: Vec<Field>)
    ensures
        field_views(fields@) == span_mark(mark@),
{
    let mut fields: Vec<Field> = Vec::new();
    let field = Field { key: "span_mark".to_owned(), value: Value::Text(mark.to_owned()) };
    proof {
        lemma_field_views_push(fields@, field);
        assert(field_views(fields@) == Seq::<FieldView>::empty());
    }
    fields.push(field);
    fields
}

/// A span over a piece of work. It writes a start marker when it is made
/// and an end marker when it is closed, once.
#[must_use]
#[derive(Debug)]
pub struct Span {
    args: String,
    active: bool,
}

impl Span {
    /// The text of both markers: the name, and the arguments where there are any.
    pub closed spec fn text(&self) -> Seq<char> {
        self.args@
    }

    /// Whether the end marker is still to come.
    pub closed spec fn is_active(&self) -> bool {
        self.active
    }

    /// Starts a span named `name`: writes its start marker to `sink`.
    pub fn new(name: &str, sink: &mut Sink) -> (span: Span)
        ensures
            span.text() == name@,
            span.is_active(),
            final(sink)@ == opened(old(sink)@, name@),
    {
        let fields = mark_field("start");
        print(Level::Trace, name, &fields, sink);
        Span { args: name.to_owned(), active: true }
    }

    /// Starts a span named `name` over the formatted arguments `args`.
    pub fn with_args(name: &str, args: &str, sink: &mut Sink) -> (span: Span)
        ensures
            span.text() == name@ + seq![',', ' '] + args@,
            span.is_active(),
            final(sink)@ == opened(old(sink)@, span.text()),
    {
        let mut text = name.to_owned();
        text.push(',');
        text.push(' ');
        text.append(args);
        let fields = mark_field("start");
        print(Level::Trace, text.as_str(), &fields, sink);
        Span { args: text, active: true }
    }

    /// Whether the end marker is still to come.
    pub fn active(&self) -> (r: bool)
        ensures
            r == self.is_active(),
    {
        self.active
    }

    /// The text of both markers.
    pub fn args(&self) -> (text: &str)
        ensures
            text@ == self.text(),
    {
        self.args.as_str()
    }

    /// Ends the span: writes its end marker to `sink`, unless it was
    /// written before.
    pub fn close(&mut self, sink: &mut Sink)
        ensures
            final(self).text() == old(self).text(),
            !final(self).is_active(),
            final(sink)@ == if old(self).is_active() {
                closed(old(sink)@, old(self).text())
            } else {
                old(sink)@
            },
    {
        if self.active {
            let fields = mark_field("end");
            print(Level::Trace, self.args.as_str(), &fields, sink);
            self.active = false;
        }
    }
}

/// Runs `block` inside a span named `name`: the start marker is written
/// before `block` runs on the sink, the end marker after it has returned.
pub fn span<T, B: FnOnce(&mut Sink) -> T>(name: &str, sink: &mut Sink, block: B) -> (result: T)
    requires
        forall|inner: &mut Sink|
            inner@ == opened(old(sink)@, name@) ==> call_requires(block, (inner,)),
    ensures
        exists|inner: &mut Sink|
            inner@ == opened(old(sink)@, name@) && call_ensures(block, (inner,), result)
                && final(sink)@ == closed(final(inner)@, name@),
{
    let mut guard = Span::new(name, sink);
    let result = block(sink);
    guard.close(sink);
    result
}

/// Runs `block` inside a span named `name` over the formatted arguments `args`.
pub fn span_with_args<T, B: FnOnce(&mut Sink) -> T>(
    name: &str,
    args: &str,
    sink: &mut Sink,
    block: B,
) -> (result: T)
    requires
        forall|inner: &mut Sink|
            inner@ == opened(old(sink)@, name@ + seq![',', ' '] + args@) ==> call_requires(
                block,
                (inner,),
            ),
    ensures
        exists|inner: &mut Sink|
            inner@ == opened(old(sink)@, name@ + seq![',', ' '] + args@) && call_ensures(
                block,
                (inner,),
                result,
            ) && final(sink)@ == closed(final(inner)@, name@ + seq![',', ' '] + args@),
{
    let mut guard = Span::with_args(name, args, sink);
    let result = block(sink);
    guard.close(sink);
    result
}

/// The start marker of a span over `text`.
pub open spec fn start_marker(text: Seq<char>) -> RecordView {
    printed_record(Level::Trace, text, span_mark("start"@))
}

/// The end marker of a span over `text`.
pub open spec fn end_marker(text: Seq<char>) -> RecordView {
    printed_record(Level::Trace, text, span_mark("end"@))
}

/// Both markers of a span say the span's text, followed by their mark.
pub proof fn lemma_marker_text(text: Seq<char>)
    ensures
        start_marker(text).message == text + ", span_mark=start"@,
        end_marker(text).message == text + ", span_mark=end"@,
        start_marker(text).level == Level::Trace,
        end_marker(text).level == Level::Trace,
{
    reveal_strlit("span_mark");
    reveal_strlit("start");
    reveal_strlit("end");
    reveal_strlit(", span_mark=start");
    reveal_strlit(", span_mark=end");
    let start = FieldView { key: "span_mark"@, value: ValueView::Text("start"@) };
    let end = FieldView { key: "span_mark"@, value: ValueView::Text("end"@) };
    assert(span_mark("start"@) == Seq::<FieldView>::empty().push(start));
    assert(span_mark("end"@) == Seq::<FieldView>::empty().push(end));
    crate::augment::lemma_tokens_push(Seq::empty(), start);
    crate::augment::lemma_tokens_push(Seq::empty(), end);
    assert(tokens(Seq::<FieldView>::empty()) == Seq::<char>::empty());
    assert(crate::augment::token(start) == ", span_mark=start"@);
    assert(crate::augment::token(end) == ", span_mark=end"@);
    assert(tokens(span_mark("start"@)) == ", span_mark=start"@);
    assert(tokens(span_mark("end"@)) == ", span_mark=end"@);
}

/// A span that is opened, and closed after `body` was written, leaves one
/// start marker before `body` and one end marker after it, both over the
/// same text, where the sink takes markers; where it takes none, it leaves
/// `body` alone.
pub proof fn lemma_span_pairs(sink: SinkView, text: Seq<char>, body: Seq<RecordView>)
    ensures
        closed(extended(opened(sink, text), body), text).records == if sink.admits(Level::Trace) {
            sink.records + seq![start_marker(text)] + body + seq![end_marker(text)]
        } else {
            sink.records + body
        },
{
}

/// Of two spans, the one opened later is closed first: its end marker
/// stands before the end marker of the span around it.
pub proof fn lemma_nested_spans(
    sink: SinkView,
    outer: Seq<char>,
    inner: Seq<char>,
    before: Seq<RecordView>,
    within: Seq<RecordView>,
    after: Seq<RecordView>,
)
    requires
        sink.admits(Level::Trace),
    ensures
        closed(
            extended(
                closed(extended(opened(extended(opened(sink, outer), before), inner), within), inner),
                after,
            ),
            outer,
        ).records == sink.records + seq![start_marker(outer)] + before + seq![start_marker(inner)]
            + within + seq![end_marker(inner)] + after + seq![end_marker(outer)],
{
}

} // verus!
