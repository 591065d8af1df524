//! Best-effort resolution of the call site a given number of frames above
//! the resolver's own entry point.

use crate::text::{copy_text, text_view, to_chars};
use vstd::prelude::*;

verus! {

/// One resolved symbol of a stack frame. Every part may be missing.
#[derive(Clone, Debug, PartialEq, Eq)]
pub struct Symbol {
    pub name: Option<String>,
    pub lineno: Option<u32>,
    pub filename: Option<String>,
}

/// What a [`Symbol`] holds, as plain mathematical values.
pub struct SymbolView {
    pub name: Option<Seq<char>>,
    pub lineno: Option<u32>,
    pub filename: Option<Seq<char>>,
}

impl View for Symbol {
    type V = SymbolView;

    open spec fn view(&self) -> SymbolView {
        SymbolView {
            name: text_view(self.name),
            lineno: self.lineno,
            filename: text_view(self.filename),
        }
    }
}

impl Symbol {
    /// A copy of this symbol.
    pub fn duplicate(&self) -> (copy: Symbol)
        ensures
            copy == *self,
    {
        Symbol {
            name: copy_text(&self.name),
            lineno: self.lineno,
            filename: copy_text(&self.filename),
        }
    }
}

/// The view of a symbol that may be missing.
pub open spec fn symbol_view(symbol: Option<Symbol>) -> Option<SymbolView> {
    match symbol {
        Some(symbol) => Some(symbol@),
        None => None,
    }
}

/// The views of a list of symbols, in order.
pub open spec fn symbol_views(symbols: Seq<Symbol>) -> Seq<SymbolView> {
    symbols.map_values(|symbol: Symbol| symbol@)
}

/// The name of the resolver's entry point, which anchors the walk.
pub open spec fn sentinel() -> Seq<char> {
    "async_log_capture_caller"@
}

/// Whether `name` is the sentinel, alone or as the last segment of a path.
pub open spec fn names_sentinel(name: Seq<char>) -> bool {
    let s = sentinel();
    name == s || (name.len() >= s.len() + 2 && name.subrange(name.len() - s.len(), name.len() as int)
        == s && name[name.len() - s.len() - 1] == ':' && name[name.len() - s.len() - 2] == ':')
}

/// Whether a symbol carries the sentinel's name.
pub open spec fn marks_sentinel(symbol: SymbolView) -> bool {
    symbol.name matches Some(name) && names_sentinel(name)
}

/// Whether `a` is the place of the first sentinel among `seen`.
pub open spec fn is_anchor(seen: Seq<SymbolView>, a: int) -> bool {
    &&& 0 <= a < seen.len()
    &&& marks_sentinel(seen[a])
    &&& forall|j: int| 0 <= j < a ==> !marks_sentinel(#[trigger] seen[j])
}

/// The place of the first sentinel among `seen`, if there is one.
pub open spec fn anchor_of(seen: Seq<SymbolView>) -> Option<int> {
    if exists|a: int| is_anchor(seen, a) {
        Some(choose|a: int| is_anchor(seen, a))
    } else {
        None
    }
}

/// The call site `depth` symbols past the first sentinel, which is itself
/// the call site at depth zero. Every symbol counts, with or without a
/// name, and the symbol at that place is the call site whatever it lacks.
/// There is none where no sentinel was seen, or where the walk ended before
/// that place.
pub open spec fn caller_at(seen: Seq<SymbolView>, depth: u8) -> Option<SymbolView> {
    match anchor_of(seen) {
        Some(a) => if a + depth < seen.len() {
            Some(seen[a + depth])
        } else {
            None
        },
        None => None,
    }
}

/// The first sentinel has one place only.
pub proof fn lemma_anchor_unique(seen: Seq<SymbolView>, a: int)
    requires
        is_anchor(seen, a),
    ensures
        anchor_of(seen) == Some(a),
{
    let b = choose|b: int| is_anchor(seen, b);
    assert(is_anchor(seen, b));
    if a < b {
        assert(!marks_sentinel(seen[a]));
    }
    if b < a {
        assert(!marks_sentinel(seen[b]));
    }
}

/// Without a sentinel there is no anchor.
pub proof fn lemma_anchor_missing(seen: Seq<SymbolView>)
    requires
        forall|j: int| 0 <= j < seen.len() ==> !marks_sentinel(#[trigger] seen[j]),
    ensures
        anchor_of(seen) is None,
{
    assert forall|a: int| !is_anchor(seen, a) by {
        if 0 <= a < seen.len() {
            assert(!marks_sentinel(seen[a]));
        }
    }
}

/// Once the call site is found among the first `k` symbols, later symbols do not change it.
pub proof fn lemma_caller_stays(seen: Seq<SymbolView>, k: int, depth: u8)
    requires
        0 <= k <= seen.len(),
        k == seen.len() || caller_at(seen.take(k), depth) is Some,
    ensures
        caller_at(seen, depth) == caller_at(seen.take(k), depth),
    decreases seen.len() - k,
{
    if k == seen.len() {
        assert(seen.take(k) == seen);
    } else {
        let before = seen.take(k);
        let after = seen.take(k + 1);
        let a = anchor_of(before)->0;
        assert(is_anchor(before, a));
        assert(is_anchor(after, a)) by {
            assert forall|j: int| 0 <= j < a implies !marks_sentinel(#[trigger] after[j]) by {
                assert(after[j] == before[j]);
            }
            assert(after[a] == before[a]);
        }
        lemma_anchor_unique(after, a);
        assert(after[a + depth] == before[a + depth]);
        lemma_caller_stays(seen, k + 1, depth);
    }
}

/// Whether `name` is the sentinel, alone or as the last segment of a path.
pub fn is_sentinel(name: &str) -> (found: bool)
    ensures
        found == names_sentinel(name@),
{
    let chars = to_chars(name);
    let wanted = to_chars("async_log_capture_caller");
    let n = chars.len();
    let w = wanted.len();
    if n < w {
        return false;
    }
    let start: usize = n - w;
    let mut i: usize = 0;
    while i < w
        invariant
            i <= w,
            chars@ == name@,
            wanted@ == sentinel(),
            w == wanted.len(),
            n == chars.len(),
            start == n - w,
            forall|j: int| 0 <= j < i ==> chars[start + j] == wanted[j],
        decreases w - i,
    {
        if chars[start + i] != wanted[i] {
            proof {
                let tail = name@.subrange(name@.len() - sentinel().len(), name@.len() as int);
                assert(tail[i as int] == chars[start + i]);
                assert(sentinel()[i as int] == wanted[i as int]);
                if name@ == sentinel() {
                    assert(tail == name@);
                }
            }
            return false;
        }
        i = i + 1;
    }
    assert(chars@.subrange(start as int, n as int) == wanted@);
    if start == 0 {
        assert(chars@.subrange(0, n as int) == chars@);
        return true;
    }
    assert(chars@ != wanted@);
    start >= 2 && chars[start - 1] == ':' && chars[start - 2] == ':'
}

/// The state of one walk over the stack: how deep to look, whether the
/// sentinel was passed, how many symbols were counted since, and the call
/// site once it is found.
pub struct CallerWalk {
    depth: u8,
    counting: bool,
    count: u8,
    found: Option<Symbol>,
    seen: Ghost<Seq<SymbolView>>,
    anchor: Ghost<int>,
}

impl CallerWalk {
    /// The depth this walk looks for.
    pub closed spec fn depth(&self) -> u8 {
        self.depth
    }

    /// Every symbol observed so far, in order.
    pub closed spec fn seen(&self) -> Seq<SymbolView> {
        self.seen@
    }

    /// The call site found so far.
    pub closed spec fn found(&self) -> Option<SymbolView> {
        symbol_view(self.found)
    }

    /// The state agrees with the symbols observed so far.
    pub closed spec fn wf(&self) -> bool {
        let seen = self.seen@;
        &&& self.counting ==> is_anchor(seen, self.anchor@)
        &&& !self.counting ==> forall|j: int|
            0 <= j < seen.len() ==> !marks_sentinel(#[trigger] seen[j])
        &&& self.count == if self.counting && seen.len() - 1 - self.anchor@ < self.depth {
            seen.len() - 1 - self.anchor@
        } else if self.counting {
            self.depth as int
        } else {
            0
        }
        &&& symbol_view(self.found) == caller_at(self.seen@, self.depth)
    }

    /// What a well-formed walk has found is the call site among what it has seen.
    pub proof fn lemma_found(&self)
        requires
            self.wf(),
        ensures
            self.found() == caller_at(self.seen(), self.depth()),
    {
    }

    /// A walk that has seen nothing yet.
    pub fn new(depth: u8) -> (walk: CallerWalk)
        ensures
            walk.wf(),
            walk.depth() == depth,
            walk.seen() == Seq::<SymbolView>::empty(),
    {
        let walk = CallerWalk {
            depth,
            counting: false,
            count: 0,
            found: None,
            seen: Ghost(Seq::empty()),
            anchor: Ghost(0),
        };
        proof {
            lemma_anchor_missing(walk.seen@);
        }
        walk
    }

    /// Takes the next symbol of the walk into account.
    pub fn observe(&mut self, symbol: Symbol)
        requires
            old(self).wf(),
        ensures
            final(self).wf(),
            final(self).depth() == old(self).depth(),
            final(self).seen() == old(self).seen().push(symbol@),
    {
        let ghost before = self.seen@;
        let ghost after = self.seen@.push(symbol@);
        proof {
            if self.counting {
                lemma_anchor_unique(before, self.anchor@);
            } else {
                lemma_anchor_missing(before);
            }
        }
        let mut hit = false;
        let first = !self.counting && match &symbol.name {
            Some(name) => is_sentinel(name.as_str()),
            None => false,
        };
        if first {
            self.counting = true;
            hit = self.depth == 0;
            proof {
                self.anchor = Ghost(before.len() as int);
            }
        } else if self.counting && self.count < self.depth {
            self.count = self.count + 1;
            hit = self.count == self.depth;
        }
        proof {
            if self.counting {
                assert(is_anchor(after, self.anchor@)) by {
                    assert forall|j: int| 0 <= j < self.anchor@ implies !marks_sentinel(
                        #[trigger] after[j],
                    ) by {
                        assert(after[j] == before[j]);
                    }
                }
                lemma_anchor_unique(after, self.anchor@);
            } else {
                assert forall|j: int| 0 <= j < after.len() implies !marks_sentinel(
                    #[trigger] after[j],
                ) by {
                    if j < before.len() {
                        assert(after[j] == before[j]);
                    }
                }
                lemma_anchor_missing(after);
            }
        }
        proof {
            self.seen = Ghost(self.seen@.push(symbol@));
        }
        if hit {
            self.found = Some(symbol);
        }
    }

    /// Whether the walk should go on: nothing was found yet.
    pub fn wants_more(&self) -> (more: bool)
        requires
            self.wf(),
        ensures
            more == self.found() is None,
    {
        self.found.is_none()
    }

    /// Ends the walk and hands out what it found.
    pub fn finish(self) -> (found: Option<Symbol>)
        requires
            self.wf(),
        ensures
            symbol_view(found) == caller_at(self.seen(), self.depth()),
    {
        self.found
    }
}

/// The call site `depth` symbols past the first sentinel of `symbols`,
/// which are given from the innermost frame outward.
pub fn resolve_caller(symbols: &Vec<Symbol>, depth: u8) -> (found: Option<Symbol>)
    ensures
        symbol_view(found) == caller_at(symbol_views(symbols@), depth),
{
    let mut walk = CallerWalk::new(depth);
    let mut i: usize = 0;
    while i < symbols.len() && walk.wants_more()
        invariant
            i <= symbols.len(),
            walk.wf(),
            walk.depth() == depth,
            walk.seen() == symbol_views(symbols@).take(i as int),
        decreases symbols.len() - i,
    {
        walk.observe(symbols[i].duplicate());
        assert(symbol_views(symbols@).take(i + 1) == symbol_views(symbols@).take(i as int).push(
            symbols[i as int]@,
        ));
        i = i + 1;
    }
    proof {
        walk.lemma_found();
        lemma_caller_stays(symbol_views(symbols@), i as int, depth);
    }
    walk.finish()
}

/// Hands every symbol of the current call stack to `walk`, from the
/// innermost frame outward, until a frame ends after which `walk` wants no
/// more. This is `backtrace::trace` with `backtrace::resolve_frame` on each
/// frame; names are demangled and written without the hash that the
/// compiler appends. The contract claims only what `observe` keeps: the
/// walk stays well-formed and looks for the same depth.
#[verifier::external_body]
fn walk_stack(walk: &mut CallerWalk)
    requires
        old(walk).wf(),
    ensures
        final(walk).wf(),
        final(walk).depth() == old(walk).depth(),
{
    backtrace::trace(|frame| {
        backtrace::resolve_frame(frame, |symbol| {
            walk.observe(Symbol {
                name: symbol.name().map(|name| format!("{:#}", name)),
                lineno: symbol.lineno(),
                filename: symbol.filename().map(|path| path.to_string_lossy().into_owned()),
            })
        });
        walk.wants_more()
    });
}

/// Finds the call site `depth` symbols above this function on the current
/// stack. The answer depends on the stack at hand: it is the call site of
/// some walk.
#[inline(never)]
pub fn async_log_capture_caller(depth: u8) -> (found: Option<Symbol>)
    ensures
        exists|seen: Seq<SymbolView>| symbol_view(found) == caller_at(seen, depth),
{
    let mut walk = CallerWalk::new(depth);
    walk_stack(&mut walk);
    proof {
        walk.lemma_found();
    }
    walk.finish()
}

} // verus!
