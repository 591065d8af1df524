//! The decorator around a logging backend: for every record it gathers the
//! task, its parent, the thread and, where asked for, the call site, and
//! attaches them before the record goes on to the backend.

use crate::augment::{
    augment, augmented, carries_token, has_key, lemma_augmented_carries_thread, lookup,
};
use crate::caller::{async_log_capture_caller, caller_at, symbol_view, Symbol, SymbolView};
use crate::identity::{lemma_threads_told_apart, thread_id, thread_id_of, thread_label};
use crate::record::{FieldView, LevelFilter, Record, RecordView, ValueView};
use vstd::prelude::*;

verus! {

/// The failure of `start`: a logger is installed already.
#[derive(Debug, PartialEq, Eq)]
pub struct SetLoggerError;

/// A logger that wraps a backend and extends its records with the task,
/// the thread and the call site they come from.
#[derive(Debug)]
pub struct Logger<L, F> where F: Fn() -> (u64, Option<u64>) {
    backtrace: bool,
    structured: bool,
    depth: u8,
    logger: L,
    with: F,
}

/// The one place of a process for its active logger, with the severity
/// threshold that was set when the logger was installed.
#[derive(Debug)]
pub struct Registry<L, F> where F: Fn() -> (u64, Option<u64>) {
    active: Option<Logger<L, F>>,
    max_level: LevelFilter,
}

impl<L, F: Fn() -> (u64, Option<u64>)> Registry<L, F> {
    /// The installed logger, if there is one.
    pub closed spec fn installed(&self) -> Option<Logger<L, F>> {
        self.active
    }

    /// The severity threshold in force.
    pub closed spec fn threshold(&self) -> LevelFilter {
        self.max_level
    }

    /// A registry without a logger; its threshold admits nothing.
    pub fn new() -> (registry: Registry<L, F>)
        ensures
            registry.installed() is None,
            registry.threshold() == LevelFilter::Off,
    {
        Registry { active: None, max_level: LevelFilter::Off }
    }

    /// The installed logger, if there is one.
    pub fn active(&self) -> (logger: Option<&Logger<L, F>>)
        ensures
            match logger {
                Some(logger) => self.installed() == Some(*logger),
                None => self.installed() is None,
            },
    {
        self.active.as_ref()
    }

    /// The severity threshold in force.
    pub fn max_level(&self) -> (filter: LevelFilter)
        ensures
            filter == self.threshold(),
    {
        self.max_level
    }
}

/// Whether a value of the backtrace switch says no: the empty text, `0`,
/// and `false`.
pub open spec fn is_falsy(text: Seq<char>) -> bool {
    text == Seq::<char>::empty() || text == seq!['0'] || text == seq!['f', 'a', 'l', 's', 'e']
}

/// Whether the value of the backtrace switch asks for call sites: it is
/// set, and to something other than the empty text, `0` or `false`.
pub fn backtrace_requested(value: Option<&str>) -> (requested: bool)
    ensures
        requested == (value matches Some(text) && !is_falsy(text@)),
{
    match value {
        Some(text) => {
            let chars = crate::text::to_chars(text);
            let empty = chars.len() == 0;
            let zero = chars.len() == 1 && chars[0] == '0';
            let no = chars.len() == 5 && chars[0] == 'f' && chars[1] == 'a' && chars[2] == 'l'
                && chars[3] == 's' && chars[4] == 'e';
            assert(empty == (text@ =~= Seq::<char>::empty()));
            assert(zero == (text@ =~= seq!['0']));
            assert(no == (text@ =~= seq!['f', 'a', 'l', 's', 'e']));
            !(empty || zero || no)
        },
        None => false,
    }
}

impl<L, F: Fn() -> (u64, Option<u64>)> Logger<L, F> {
    #[verifier::type_invariant]
    spec fn callable(self) -> bool {
        call_requires(self.with, ())
    }

    /// Whether call sites are looked up.
    pub closed spec fn captures_backtrace(&self) -> bool {
        self.backtrace
    }

    /// Whether metadata goes into the fields of a record rather than its message.
    pub closed spec fn is_structured(&self) -> bool {
        self.structured
    }

    /// How many symbols above the resolver the call site is looked for.
    pub closed spec fn skip_depth(&self) -> u8 {
        self.depth
    }

    /// The wrapped backend.
    pub closed spec fn inner(&self) -> L {
        self.logger
    }

    /// The callback that names the current task and its parent.
    pub closed spec fn provider(&self) -> F {
        self.with
    }

    /// Wraps `logger`. `with` names the current task and its parent on
    /// every call; `depth` says how far above the resolver the call site
    /// lies. Call sites are not looked up, and metadata goes into fields,
    /// until the builders say otherwise.
    pub fn wrap(logger: L, with: F, depth: u8) -> (wrapped: Self)
        requires
            call_requires(with, ()),
        ensures
            wrapped.inner() == logger,
            wrapped.provider() == with,
            wrapped.skip_depth() == depth,
            !wrapped.captures_backtrace(),
            wrapped.is_structured(),
    {
        Logger { backtrace: false, structured: true, depth, logger, with }
    }

    /// Installs this logger in `registry` and sets the severity threshold.
    /// A registry takes one logger in its life: where it holds one, this
    /// fails and leaves the registry as it was.
    pub fn start(self, filter: LevelFilter, registry: &mut Registry<L, F>) -> (res: Result<
        (),
        SetLoggerError,
    >)
        ensures
            old(registry).installed() is Some ==> res is Err && *final(registry) == *old(registry),
            old(registry).installed() is None ==> res is Ok && final(registry).installed() == Some(
                self,
            ) && final(registry).threshold() == filter,
    {
        if registry.active.is_some() {
            return Err(SetLoggerError);
        }
        registry.active = Some(self);
        registry.max_level = filter;
        Ok(())
    }

    /// Calls the callback and returns the current task and its parent.
    pub fn with(&self) -> (ids: (u64, Option<u64>))
        ensures
            call_ensures(self.provider(), (), ids),
    {
        proof {
            use_type_invariant(self);
        }
        (self.with)()
    }

    /// Which stack frame to log for `record`, counted in symbols above the
    /// resolver.
    pub fn compute_stack_depth(&self, record: &Record) -> (depth: u8)
        ensures
            depth == self.skip_depth(),
    {
        self.depth
    }

    /// Turns the lookup of call sites on or off.
    pub fn backtrace(self, enabled: bool) -> (logger: Self)
        ensures
            logger.captures_backtrace() == enabled,
            logger.is_structured() == self.is_structured(),
            logger.skip_depth() == self.skip_depth(),
            logger.inner() == self.inner(),
            logger.provider() == self.provider(),
    {
        proof {
            use_type_invariant(&self);
        }
        Logger {
            backtrace: enabled,
            structured: self.structured,
            depth: self.depth,
            logger: self.logger,
            with: self.with,
        }
    }

    /// Says whether the backend takes structured fields. Where it does
    /// not, metadata is appended to the message.
    pub fn structured(self, structured: bool) -> (logger: Self)
        ensures
            logger.is_structured() == structured,
            logger.captures_backtrace() == self.captures_backtrace(),
            logger.skip_depth() == self.skip_depth(),
            logger.inner() == self.inner(),
            logger.provider() == self.provider(),
    {
        proof {
            use_type_invariant(&self);
        }
        Logger {
            backtrace: self.backtrace,
            structured,
            depth: self.depth,
            logger: self.logger,
            with: self.with,
        }
    }

    /// The wrapped backend.
    pub fn backend(&self) -> (backend: &L)
        ensures
            *backend == self.inner(),
    {
        &self.logger
    }

    /// What one log call may gather with `resolver` in place of the stack
    /// walk: ids that the callback can return, and a call site that
    /// `resolver` can return for the configured depth, or none at all where
    /// call sites are not looked up.
    pub open spec fn gathers_with<R: FnOnce(u8) -> Option<Symbol>>(
        &self,
        resolver: R,
        ids: (u64, Option<u64>),
        frame: Option<Symbol>,
    ) -> bool {
        &&& call_ensures(self.provider(), (), ids)
        &&& if self.captures_backtrace() {
            call_ensures(resolver, (self.skip_depth(),), frame)
        } else {
            frame is None
        }
    }

    /// What one log call may gather: ids that the callback can return, and
    /// a call site of some walk at the configured depth, or none at all
    /// where call sites are not looked up.
    pub open spec fn gathers(&self, ids: (u64, Option<u64>), frame: Option<SymbolView>) -> bool {
        &&& call_ensures(self.provider(), (), ids)
        &&& if self.captures_backtrace() {
            exists|seen: Seq<SymbolView>| frame == caller_at(seen, self.skip_depth())
        } else {
            frame is None
        }
    }

    /// Decorates `record` for the backend, looking up the call site with
    /// `resolver`. `enabled` is what the backend answered when asked
    /// whether it takes the record: where it does not, nothing is gathered
    /// and nothing goes on. `thread` is the text that the standard library
    /// prints for the calling thread, such as `ThreadId(7)`. Otherwise the
    /// callback is asked for the ids, `resolver` is asked for the call site
    /// where call sites are looked up, and only there, and the record goes
    /// on with what they gave and with the id read from `thread`. Where
    /// `thread` has another shape, the record goes on without a thread id.
    pub fn log_with<R: FnOnce(u8) -> Option<Symbol>>(
        &self,
        record: &Record,
        enabled: bool,
        thread: &str,
        resolver: R,
    ) -> (forwarded: Option<Record>)
        requires
            enabled && self.captures_backtrace() ==> call_requires(resolver, (self.skip_depth(),)),
        ensures
            !enabled ==> forwarded is None,
            enabled ==> forwarded is Some && exists|ids: (u64, Option<u64>), frame: Option<Symbol>|
                #![trigger self.gathers_with(resolver, ids, frame)]
                self.gathers_with(resolver, ids, frame) && forwarded->0@ == augmented(
                    record@,
                    self.is_structured(),
                    symbol_view(frame),
                    ids.0,
                    ids.1,
                    thread_id_of(thread@),
                ),
    {
        if !enabled {
            return None;
        }
        let ids = self.with();
        let frame: Option<Symbol> = if self.backtrace {
            resolver(self.compute_stack_depth(record))
        } else {
            None
        };
        let out = augment(record, self.structured, &frame, ids.0, ids.1, thread_id(thread));
        assert(self.gathers_with(resolver, ids, frame));
        Some(out)
    }

    /// Decorates `record` for the backend. `enabled` is what the backend
    /// answered when asked whether it takes the record: where it does not,
    /// nothing is gathered and nothing goes on. `thread` is the text that
    /// the standard library prints for the calling thread. Otherwise the
    /// record goes on with the ids of the callback, the call site where it
    /// is looked up and found on the stack, and the id read from `thread`.
    pub fn log(&self, record: &Record, enabled: bool, thread: &str) -> (forwarded: Option<Record>)
        ensures
            !enabled ==> forwarded is None,
            enabled ==> forwarded is Some && exists|ids: (u64, Option<u64>), frame: Option<SymbolView>|
                #![trigger self.gathers(ids, frame)]
                self.gathers(ids, frame) && forwarded->0@ == augmented(
                    record@,
                    self.is_structured(),
                    frame,
                    ids.0,
                    ids.1,
                    thread_id_of(thread@),
                ),
    {
        let forwarded = self.log_with(record, enabled, thread, async_log_capture_caller);
        proof {
            if enabled {
                let (ids, frame) = choose|ids: (u64, Option<u64>), frame: Option<Symbol>|
                    #![trigger self.gathers_with(async_log_capture_caller, ids, frame)]
                    self.gathers_with(async_log_capture_caller, ids, frame) && forwarded->0@
                        == augmented(
                        record@,
                        self.is_structured(),
                        symbol_view(frame),
                        ids.0,
                        ids.1,
                        thread_id_of(thread@),
                    );
                assert(self.gathers(ids, symbol_view(frame)));
            }
        }
        forwarded
    }
}

/// What goes on from one thread carries that thread's id, every time, and
/// what goes on from two threads with different numbers carries different
/// ids. `a` and `b` are the numbers of two threads, whose texts `log` is
/// given; the record has no field named `thread_id` of its own.
pub proof fn lemma_thread_id_at_the_logger(
    record: RecordView,
    frame: Option<SymbolView>,
    task_id: u64,
    parent_id: Option<u64>,
    a: u64,
    b: u64,
)
    requires
        !has_key(record.fields, "thread_id"@),
    ensures
        lookup(
            augmented(
                record,
                true,
                frame,
                task_id,
                parent_id,
                thread_id_of(thread_label(a as nat)),
            ).fields,
            "thread_id"@,
        ) == Some(ValueView::Number(a)),
        carries_token(
            augmented(
                record,
                false,
                frame,
                task_id,
                parent_id,
                thread_id_of(thread_label(a as nat)),
            ).message,
            FieldView { key: "thread_id"@, value: ValueView::Number(a) },
        ),
        a != b ==> lookup(
            augmented(
                record,
                true,
                frame,
                task_id,
                parent_id,
                thread_id_of(thread_label(a as nat)),
            ).fields,
            "thread_id"@,
        ) != lookup(
            augmented(
                record,
                true,
                frame,
                task_id,
                parent_id,
                thread_id_of(thread_label(b as nat)),
            ).fields,
            "thread_id"@,
        ),
{
    lemma_threads_told_apart(a, b);
    lemma_augmented_carries_thread(record, true, frame, task_id, parent_id, a);
    lemma_augmented_carries_thread(record, false, frame, task_id, parent_id, a);
    lemma_augmented_carries_thread(record, true, frame, task_id, parent_id, b);
}

} // verus!
