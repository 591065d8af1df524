//! Log records as plain values: severity, text, and key-value fields.

use crate::text::text_view;
use vstd::prelude::*;

verus! {

/// The severity of a record, from the most to the least severe.
#[derive(Clone, Copy, Debug, PartialEq, Eq, Structural)]
pub enum Level {
    Error,
    Warn,
    Info,
    Debug,
    Trace,
}

/// A severity threshold: `Off` admits nothing, `Trace` admits everything.
#[derive(Clone, Copy, Debug, PartialEq, Eq, Structural)]
pub enum LevelFilter {
    Off,
    Error,
    Warn,
    Info,
    Debug,
    Trace,
}

impl Level {
    /// The place of this severity, `Error` being 1 and `Trace` 5.
    pub open spec fn rank(self) -> nat {
        match self {
            Level::Error => 1,
            Level::Warn => 2,
            Level::Info => 3,
            Level::Debug => 4,
            Level::Trace => 5,
        }
    }

    /// The place of this severity, `Error` being 1 and `Trace` 5.
    pub fn ordinal(self) -> (r: u8)
        ensures
            r == self.rank(),
    {
        match self {
            Level::Error => 1,
            Level::Warn => 2,
            Level::Info => 3,
            Level::Debug => 4,
            Level::Trace => 5,
        }
    }
}

impl LevelFilter {
    /// The place of this threshold, `Off` being 0 and `Trace` 5.
    pub open spec fn rank(self) -> nat {
        match self {
            LevelFilter::Off => 0,
            LevelFilter::Error => 1,
            LevelFilter::Warn => 2,
            LevelFilter::Info => 3,
            LevelFilter::Debug => 4,
            LevelFilter::Trace => 5,
        }
    }

    /// The place of this threshold, `Off` being 0 and `Trace` 5.
    pub fn ordinal(self) -> (r: u8)
        ensures
            r == self.rank(),
    {
        match self {
            LevelFilter::Off => 0,
            LevelFilter::Error => 1,
            LevelFilter::Warn => 2,
            LevelFilter::Info => 3,
            LevelFilter::Debug => 4,
            LevelFilter::Trace => 5,
        }
    }

    /// Whether a record of severity `level` passes this threshold.
    pub open spec fn admits(self, level: Level) -> bool {
        level.rank() <= self.rank()
    }

    /// Whether a record of severity `level` passes this threshold.
    pub fn allows(self, level: Level) -> (r: bool)
        ensures
            r == self.admits(level),
    {
        level.ordinal() <= self.ordinal()
    }
}

/// The value of a field: text, or an unsigned number.
#[derive(Clone, Debug, PartialEq, Eq)]
pub enum Value {
    Text(String),
    Number(u64),
}

/// What a [`Value`] holds.
pub enum ValueView {
    Text(Seq<char>),
    Number(u64),
}

impl View for Value {
    type V = ValueView;

    open spec fn view(&self) -> ValueView {
        match self {
            Value::Text(text) => ValueView::Text(text@),
            Value::Number(n) => ValueView::Number(*n),
        }
    }
}

impl Value {
    /// A copy of this value.
    pub fn duplicate(&self) -> (copy: Value)
        ensures
            copy == *self,
    {
        match self {
            Value::Text(text) => Value::Text(text.clone()),
            Value::Number(n) => Value::Number(*n),
        }
    }
}

/// A named attribute of a record.
#[derive(Clone, Debug, PartialEq, Eq)]
pub struct Field {
    pub key: String,
    pub value: Value,
}

/// What a [`Field`] holds.
pub struct FieldView {
    pub key: Seq<char>,
    pub value: ValueView,
}

impl View for Field {
    type V = FieldView;

    open spec fn view(&self) -> FieldView {
        FieldView { key: self.key@, value: self.value@ }
    }
}

impl Field {
    /// A copy of this field.
    pub fn duplicate(&self) -> (copy: Field)
        ensures
            copy == *self,
    {
        Field { key: self.key.clone(), value: self.value.duplicate() }
    }
}

/// The views of a list of fields, in order.
pub open spec fn field_views(fields: Seq<Field>) -> Seq<FieldView> {
    fields.map_values(|field: Field| field@)
}

/// One log record: where it comes from, how severe it is, what it says, and
/// the fields attached to it.
#[derive(Clone, Debug, PartialEq, Eq)]
pub struct Record {
    pub level: Level,
    pub target: String,
    pub message: String,
    pub fields: Vec<Field>,
    pub module: Option<String>,
    pub file: Option<String>,
    pub line: Option<u32>,
}

/// What a [`Record`] holds.
pub struct RecordView {
    pub level: Level,
    pub target: Seq<char>,
    pub message: Seq<char>,
    pub fields: Seq<FieldView>,
    pub module: Option<Seq<char>>,
    pub file: Option<Seq<char>>,
    pub line: Option<u32>,
}

impl View for Record {
    type V = RecordView;

    open spec fn view(&self) -> RecordView {
        RecordView {
            level: self.level,
            target: self.target@,
            message: self.message@,
            fields: field_views(self.fields@),
            module: text_view(self.module),
            file: text_view(self.file),
            line: self.line,
        }
    }
}

/// The views of a list of records, in order.
pub open spec fn record_views(records: Seq<Record>) -> Seq<RecordView> {
    records.map_values(|record: Record| record@)
}

} // verus!
