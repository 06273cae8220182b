//! Loggers behind one opaque handle: a logger that records formatted lines,
//! one that discards everything, a filter by minimum level, and a tee that
//! feeds two loggers. A logger tree delivers each message to the buffers
//! ("sinks") at its leaves whose path admits the message's level.

use vstd::prelude::*;

verus! {

/// Severity of a log message, from least to most severe.
#[derive(Debug, Clone, Copy, PartialEq, Eq, Structural)]
pub enum LogLevel {
    Debug,
    Info,
    Warn,
    Error,
}

/// The rank of a level: Debug 0, Info 1, Warn 2, Error 3.
pub open spec fn level_rank(level: LogLevel) -> nat {
    match level {
        LogLevel::Debug => 0,
        LogLevel::Info => 1,
        LogLevel::Warn => 2,
        LogLevel::Error => 3,
    }
}

/// The rank of a level, as C sees it.
pub fn level_code(level: LogLevel) -> (r: u32)
    ensures
        r == level_rank(level),
{
    match level {
        LogLevel::Debug => 0,
        LogLevel::Info => 1,
        LogLevel::Warn => 2,
        LogLevel::Error => 3,
    }
}

/// The upper-case name of a level.
pub open spec fn level_name(level: LogLevel) -> Seq<char> {
    match level {
        LogLevel::Debug => "DEBUG"@,
        LogLevel::Info => "INFO"@,
        LogLevel::Warn => "WARN"@,
        LogLevel::Error => "ERROR"@,
    }
}

/// The upper-case name of a level, e.g. `"INFO"`.
pub fn level_str(level: LogLevel) -> (r: &'static str)
    ensures
        r@ == level_name(level),
{
    match level {
        LogLevel::Debug => "DEBUG",
        LogLevel::Info => "INFO",
        LogLevel::Warn => "WARN",
        LogLevel::Error => "ERROR",
    }
}

/// The recorded form of a message: `"LEVEL: message"`.
pub open spec fn log_line(level: LogLevel, message: Seq<char>) -> Seq<char> {
    level_name(level) + ": "@ + message
}

/// The recorded form of a message, e.g. `"INFO: hello"`.
pub fn format_line(level: LogLevel, message: &str) -> (r: String)
    ensures
        r@ == log_line(level, message@),
{
    let mut s = String::from_str(level_str(level));
    s.append(": ");
    s.append(message);
    s
}

/// The buffers at the leaves of a logger, each seen as its lines.
pub open spec fn string_views(v: Seq<String>) -> Seq<Seq<char>> {
    v.map_values(|s: String| s@)
}

/// A logger. Its sinks are the line buffers it ends in; `gates(level)[i]`
/// tells whether a message of that level reaches sink `i`.
pub trait Logger {
    spec fn sinks(&self) -> Seq<Seq<Seq<char>>>;

    spec fn gates(&self, level: LogLevel) -> Seq<bool>;

    spec fn name_spec(&self) -> Seq<char>;

    /// There is one gate per sink.
    proof fn lemma_gates_match(&self, level: LogLevel)
        ensures
            self.gates(level).len() == self.sinks().len(),
    ;

    /// Logs a message: every sink whose gate admits `level` records
    /// `"LEVEL: message"`; the others stay as they were.
    fn log(&mut self, level: LogLevel, message: &str)
        ensures
            final(self).sinks().len() == old(self).sinks().len(),
            forall|i: int|
                #![trigger final(self).sinks()[i]]
                0 <= i < old(self).sinks().len() ==> final(self).sinks()[i] == if old(self).gates(level)[i] {
                    old(self).sinks()[i].push(log_line(level, message@))
                } else {
                    old(self).sinks()[i]
                },
            forall|l: LogLevel| #[trigger] final(self).gates(l) == old(self).gates(l),
            final(self).name_spec() == old(self).name_spec(),
    ;

    /// Flushes buffered output; the recorded lines stay as they are.
    fn flush(&mut self)
        ensures
            final(self).sinks() == old(self).sinks(),
            forall|l: LogLevel| #[trigger] final(self).gates(l) == old(self).gates(l),
            final(self).name_spec() == old(self).name_spec(),
    {
    }

    /// The logger's name.
    fn name(&self) -> (r: String)
        ensures
            r@ == self.name_spec(),
    ;
}

/// A logger that records every message as a formatted line.
pub struct PrintLogger {
    name: String,
    buffer: Vec<String>,
}

impl PrintLogger {
    /// A new logger named `name` with no lines recorded.
    pub fn new(name: &str) -> (r: Self)
        ensures
            r.sinks() == seq![Seq::<Seq<char>>::empty()],
            forall|l: LogLevel| #[trigger] r.gates(l) == seq![true],
            r.name_spec() == name@,
    {
        let r = PrintLogger { name: name.to_owned(), buffer: Vec::new() };
        assert(string_views(r.buffer@) =~= Seq::<Seq<char>>::empty());
        r
    }

    /// The lines recorded so far, oldest first.
    pub fn messages(&self) -> (r: Vec<String>)
        ensures
            self.sinks() == seq![string_views(r@)],
    {
        let mut out: Vec<String> = Vec::new();
        let mut i: usize = 0;
        while i < self.buffer.len()
            invariant
                i <= self.buffer@.len(),
                out@.len() == i,
                forall|j: int| 0 <= j < i ==> #[trigger] out@[j]@ == self.buffer@[j]@,
            decreases self.buffer@.len() - i,
        {
            out.push(self.buffer[i].clone());
            i = i + 1;
        }
        assert(string_views(out@) =~= string_views(self.buffer@));
        out
    }
}

impl Logger for PrintLogger {
    closed spec fn sinks(&self) -> Seq<Seq<Seq<char>>> {
        seq![string_views(self.buffer@)]
    }

    closed spec fn gates(&self, level: LogLevel) -> Seq<bool> {
        seq![true]
    }

    closed spec fn name_spec(&self) -> Seq<char> {
        self.name@
    }

    proof fn lemma_gates_match(&self, level: LogLevel) {
    }

    fn log(&mut self, level: LogLevel, message: &str) {
        let line = format_line(level, message);
        let ghost before = self.buffer@;
        self.buffer.push(line);
        assert(string_views(self.buffer@) =~= string_views(before).push(log_line(level, message@)));
    }

    fn name(&self) -> (r: String) {
        self.name.clone()
    }
}

/// A logger that discards every message.
pub struct NullLogger;

impl Logger for NullLogger {
    closed spec fn sinks(&self) -> Seq<Seq<Seq<char>>> {
        Seq::empty()
    }

    closed spec fn gates(&self, level: LogLevel) -> Seq<bool> {
        Seq::empty()
    }

    closed spec fn name_spec(&self) -> Seq<char> {
        "null"@
    }

    proof fn lemma_gates_match(&self, level: LogLevel) {
    }

    fn log(&mut self, level: LogLevel, message: &str) {
    }

    fn name(&self) -> (r: String) {
        String::from_str("null")
    }
}

/// A logger that passes on only messages at or above a minimum level.
pub struct FilterLogger<L: Logger> {
    min_level: LogLevel,
    inner: L,
}

impl<L: Logger> FilterLogger<L> {
    /// The minimum level the filter passes on.
    pub closed spec fn minimum(&self) -> LogLevel {
        self.min_level
    }

    /// The logger behind the filter.
    pub closed spec fn inner_logger(&self) -> L {
        self.inner
    }

    /// Takes the filter apart, handing back the logger behind it.
    pub fn into_inner(self) -> (r: L)
        ensures
            r == self.inner_logger(),
    {
        self.inner
    }

    /// A filter in front of `inner`.
    pub fn new(min_level: LogLevel, inner: L) -> (r: Self)
        ensures
            r.minimum() == min_level,
            r.inner_logger() == inner,
            r.sinks() == inner.sinks(),
            forall|l: LogLevel| #[trigger] r.gates(l) == (if level_rank(l) >= level_rank(min_level) {
                inner.gates(l)
            } else {
                Seq::new(inner.sinks().len(), |i: int| false)
            }),
    {
        FilterLogger { min_level, inner }
    }
}

impl<L: Logger> Logger for FilterLogger<L> {
    closed spec fn sinks(&self) -> Seq<Seq<Seq<char>>> {
        self.inner.sinks()
    }

    closed spec fn gates(&self, level: LogLevel) -> Seq<bool> {
        if level_rank(level) >= level_rank(self.min_level) {
            self.inner.gates(level)
        } else {
            Seq::new(self.inner.sinks().len(), |i: int| false)
        }
    }

    closed spec fn name_spec(&self) -> Seq<char> {
        "filter"@
    }

    proof fn lemma_gates_match(&self, level: LogLevel) {
        self.inner.lemma_gates_match(level);
    }

    fn log(&mut self, level: LogLevel, message: &str) {
        if level_code(level) >= level_code(self.min_level) {
            self.inner.log(level, message);
        }
    }

    fn flush(&mut self) {
        self.inner.flush();
    }

    fn name(&self) -> (r: String) {
        String::from_str("filter")
    }
}

/// A logger that passes every message to two loggers.
pub struct TeeLogger<A: Logger, B: Logger> {
    a: A,
    b: B,
}

impl<A: Logger, B: Logger> TeeLogger<A, B> {
    /// The two loggers behind the tee.
    pub closed spec fn parts(&self) -> (A, B) {
        (self.a, self.b)
    }

    /// Takes the tee apart, handing back its two loggers.
    pub fn into_parts(self) -> (r: (A, B))
        ensures
            r == self.parts(),
    {
        (self.a, self.b)
    }

    /// A tee into `a` and `b`.
    pub fn new(a: A, b: B) -> (r: Self)
        ensures
            r.parts() == (a, b),
            r.sinks() == a.sinks() + b.sinks(),
            forall|l: LogLevel| #[trigger] r.gates(l) == a.gates(l) + b.gates(l),
    {
        TeeLogger { a, b }
    }
}

impl<A: Logger, B: Logger> Logger for TeeLogger<A, B> {
    closed spec fn sinks(&self) -> Seq<Seq<Seq<char>>> {
        self.a.sinks() + self.b.sinks()
    }

    closed spec fn gates(&self, level: LogLevel) -> Seq<bool> {
        self.a.gates(level) + self.b.gates(level)
    }

    closed spec fn name_spec(&self) -> Seq<char> {
        "tee"@
    }

    proof fn lemma_gates_match(&self, level: LogLevel) {
        self.a.lemma_gates_match(level);
        self.b.lemma_gates_match(level);
    }

    fn log(&mut self, level: LogLevel, message: &str) {
        proof {
            self.a.lemma_gates_match(level);
            self.b.lemma_gates_match(level);
        }
        let ghost sa = self.a.sinks();
        let ghost ga = self.a.gates(level);
        self.a.log(level, message);
        self.b.log(level, message);
        proof {
            let n = sa.len() as int;
            assert forall|i: int|
                #![trigger self.sinks()[i]]
                0 <= i < old(self).sinks().len() implies self.sinks()[i] == if old(self).gates(level)[i] {
                    old(self).sinks()[i].push(log_line(level, message@))
                } else {
                    old(self).sinks()[i]
                } by {
                if i < n {
                    assert(self.a.sinks()[i] == self.sinks()[i]);
                } else {
                    assert(self.b.sinks()[i - n] == self.sinks()[i]);
                }
            }
        }
    }

    fn flush(&mut self) {
        self.a.flush();
        self.b.flush();
    }

    fn name(&self) -> (r: String) {
        String::from_str("tee")
    }
}

/// One owned handle around any logger, as C holds it.
pub struct LoggerHandle<L: Logger> {
    inner: L,
}

impl<L: Logger> View for LoggerHandle<L> {
    type V = L;

    closed spec fn view(&self) -> L {
        self.inner
    }
}

/// Packages a logger into a handle.
pub fn logger_new<L: Logger>(boxed: L) -> (r: LoggerHandle<L>)
    ensures
        r@ == boxed,
{
    LoggerHandle { inner: boxed }
}

/// Logs through the handle.
pub fn logger_log<L: Logger>(handle: &mut LoggerHandle<L>, level: LogLevel, message: &str)
    ensures
        final(handle)@.sinks().len() == old(handle)@.sinks().len(),
        forall|i: int|
            #![trigger final(handle)@.sinks()[i]]
            0 <= i < old(handle)@.sinks().len() ==> final(handle)@.sinks()[i] == if old(handle)@.gates(level)[i] {
                old(handle)@.sinks()[i].push(log_line(level, message@))
            } else {
                old(handle)@.sinks()[i]
            },
        forall|l: LogLevel| #[trigger] final(handle)@.gates(l) == old(handle)@.gates(l),
{
    handle.inner.log(level, message);
}

/// Flushes through the handle; the recorded lines, the gates and the name
/// of the logger stay as they are.
pub fn logger_flush<L: Logger>(handle: &mut LoggerHandle<L>)
    ensures
        final(handle)@.sinks() == old(handle)@.sinks(),
        forall|l: LogLevel| #[trigger] final(handle)@.gates(l) == old(handle)@.gates(l),
        final(handle)@.name_spec() == old(handle)@.name_spec(),
{
    handle.inner.flush();
}

/// The name of the logger behind the handle.
pub fn logger_name<L: Logger>(handle: &LoggerHandle<L>) -> (r: String)
    ensures
        r@ == handle@.name_spec(),
{
    handle.inner.name()
}

/// Releases the handle, handing back its logger.
pub fn logger_free<L: Logger>(handle: LoggerHandle<L>) -> (r: L)
    ensures
        r == handle@,
{
    handle.inner
}

/// Below the minimum level, a filter lets nothing through, whatever is
/// behind it.
pub proof fn law_filter_blocks_below_minimum<L: Logger>(f: FilterLogger<L>, level: LogLevel)
    requires
        level_rank(level) < level_rank(f.minimum()),
    ensures
        forall|i: int| 0 <= i < f.sinks().len() ==> !#[trigger] f.gates(level)[i],
{
}

} // verus!
