//! The capture sink: an ordered store of records with its queries.

use vstd::prelude::*;
use vstd::string::StringExecFns;

use crate::level::Level;

verus! {

/// One captured record, immutable once created.
#[derive(Debug)]
pub struct CapturedLog {
    /// The fully rendered message, arguments already substituted.
    pub body: String,
    /// The severity the record was emitted at.
    pub level: Level,
    /// Origin identifier supplied by the emitter; captured, not queried.
    pub target: String,
}

/// Spec-level image of one captured record.
#[verifier::ext_equal]
pub ghost struct LogView {
    pub body: Seq<char>,
    pub level: Level,
    pub target: Seq<char>,
}

impl View for CapturedLog {
    type V = LogView;

    open spec fn view(&self) -> LogView {
        LogView { body: self.body@, level: self.level, target: self.target@ }
    }
}

impl CapturedLog {
    /// Builds a record from its already-rendered parts.
    pub fn new(level: Level, body: String, target: String) -> (r: Self)
        ensures
            r@.level == level,
            r@.body == body@,
            r@.target == target@,
    {
        CapturedLog { body, level, target }
    }

    /// The rendered form of one entry: its body.
    pub fn render(&self) -> (r: String)
        ensures
            r@ == self@.body,
    {
        self.body.clone()
    }
}

/// Holds when `needle` occurs in `hay` as a contiguous sub-range.
pub open spec fn has_substring(hay: Seq<char>, needle: Seq<char>) -> bool {
    exists|i: int|
        0 <= i && i + needle.len() <= hay.len() && #[trigger] hay.subrange(i, i + needle.len())
            == needle
}

/// Holds when the entry has exactly the given level and its body contains
/// the given text.
pub open spec fn entry_matches(e: LogView, level: Level, needle: Seq<char>) -> bool {
    e.level == level && has_substring(e.body, needle)
}

/// Holds when at least one entry of the store matches the query.
pub open spec fn some_entry_matches(entries: Seq<LogView>, level: Level, needle: Seq<char>) -> bool {
    exists|i: int| 0 <= i < entries.len() && entry_matches(entries[i], level, needle)
}

/// Spec-level image of the whole sink: the captured entries in emission
/// order, and whether the one-time initialization has run.
#[verifier::ext_equal]
pub ghost struct SinkView {
    pub entries: Seq<LogView>,
    pub started: bool,
}

/// The sink after initialization: the store is kept, the started flag is set.
pub open spec fn start_model(v: SinkView) -> SinkView {
    SinkView { entries: v.entries, started: true }
}

/// The sink after one record is captured: the entry is appended, nothing
/// else changes.
pub open spec fn record_model(v: SinkView, e: LogView) -> SinkView {
    SinkView { entries: v.entries.push(e), started: v.started }
}

/// The sink after a bulk clear: the store is empty, the started flag is kept.
pub open spec fn clear_model(v: SinkView) -> SinkView {
    SinkView { entries: Seq::empty(), started: v.started }
}

/// The sink after the records of `es` are captured one by one, in order.
pub open spec fn record_all_model(v: SinkView, es: Seq<LogView>) -> SinkView
    decreases es.len(),
{
    if es.len() == 0 {
        v
    } else {
        record_all_model(record_model(v, es[0]), es.drop_first())
    }
}

/// The rendering of a store: each body in order, followed by a newline.
pub open spec fn render_model(entries: Seq<LogView>) -> Seq<char>
    decreases entries.len(),
{
    if entries.len() == 0 {
        Seq::empty()
    } else {
        render_model(entries.drop_last()) + entries.last().body + seq!['\n']
    }
}

/// The capture sink itself: an insertion-ordered store of records, behind
/// a one-way started flag.
#[derive(Debug)]
pub struct LogTester {
    logs: Vec<CapturedLog>,
    started: bool,
}

impl View for LogTester {
    type V = SinkView;

    closed spec fn view(&self) -> SinkView {
        SinkView {
            entries: Seq::new(self.logs@.len(), |i: int| self.logs@[i]@),
            started: self.started,
        }
    }
}

impl LogTester {
    /// A fresh sink: uninitialized, with an empty store.
    pub fn new() -> (r: Self)
        ensures
            r@.entries == Seq::<LogView>::empty(),
            !r@.started,
    {
        let r = LogTester { logs: Vec::new(), started: false };
        proof {
            assert(r@.entries =~= Seq::<LogView>::empty());
        }
        r
    }

    /// The number of captured entries.
    pub fn len(&self) -> (n: usize)
        ensures
            n == self@.entries.len(),
    {
        self.logs.len()
    }

    /// Idempotent initialization: sets the one-time started flag and changes nothing
    /// else, so a second call has no further effect.
    pub fn start(&mut self)
        ensures
            final(self)@ == start_model(old(self)@),
    {
        self.started = true;
    }

    /// The sink accepts records of every level and target: nothing is
    /// filtered out by a severity threshold.
    pub fn enabled(&self, _level: Level) -> (r: bool)
        ensures
            r,
    {
        true
    }

    /// Captures one record: appends it to the store, changing nothing else.
    pub fn log(&mut self, record: CapturedLog)
        ensures
            final(self)@ == record_model(old(self)@, record@),
    {
        self.logs.push(record);
        proof {
            assert(self@ =~= record_model(old(self)@, record@));
        }
    }

    /// Nothing is ever buffered, so there is nothing to flush.
    pub fn flush(&self) {
    }

    /// Empties the store; the started flag is kept as it was.
    pub fn clear(&mut self)
        ensures
            final(self)@ == clear_model(old(self)@),
    {
        self.logs.clear();
        proof {
            assert(self@ =~= clear_model(old(self)@));
        }
    }

    /// Renders the whole store: each body in emission order, one per line.
    pub fn render(&self) -> (r: String)
        ensures
            r@ == render_model(self@.entries),
    {
        let mut out = String::new();
        let n = self.logs.len();
        let mut i: usize = 0;
        while i < n
            invariant
                n == self.logs.len(),
                i <= n,
                out@ == render_model(self@.entries.take(i as int)),
            decreases n - i,
        {
            out.append(self.logs[i].body.as_str());
            out.append("\n");
            proof {
                reveal_strlit("\n");
                let s = self@.entries;
                assert(s.take(i + 1 as int).drop_last() =~= s.take(i as int));
                assert(s.take(i + 1 as int).last() == s[i as int]);
                assert("\n"@ =~= seq!['\n']);
                assert(out@ == render_model(s.take(i + 1 as int)));
            }
            i += 1;
        }
        proof {
            assert(self@.entries.take(n as int) =~= self@.entries);
        }
        out
    }

    /// Whether some captured entry has exactly the given level and contains
    /// the given text in its body.
    pub fn contains(&self, level: Level, content: &str) -> (r: bool)
        ensures
            r == some_entry_matches(self@.entries, level, content@),
    {
        let n = self.logs.len();
        let mut i: usize = 0;
        while i < n
            invariant
                n == self.logs.len(),
                i <= n,
                forall|j: int| 0 <= j < i ==> !entry_matches(self@.entries[j], level, content@),
            decreases n - i,
        {
            let entry = &self.logs[i];
            if entry.level == level && str_contains(entry.body.as_str(), content) {
                proof {
                    assert(entry_matches(self@.entries[i as int], level, content@));
                }
                return true;
            }
            i += 1;
        }
        false
    }
}

/// Initialization is idempotent: starting an already started sink leaves
/// exactly the state that a single start leaves; in particular the store
/// does not grow from the call itself.
pub proof fn lemma_start_idempotent(v: SinkView)
    ensures
        start_model(start_model(v)) == start_model(v),
{
}

/// Emission order is kept: capturing the records of `es` one by one appends
/// them to the store in that order, grows the count by exactly `es.len()`,
/// and leaves the started flag alone.
pub proof fn lemma_record_all(v: SinkView, es: Seq<LogView>)
    ensures
        record_all_model(v, es).entries == v.entries + es,
        record_all_model(v, es).entries.len() == v.entries.len() + es.len(),
        record_all_model(v, es).started == v.started,
    decreases es.len(),
{
    if es.len() == 0 {
        assert(v.entries + es =~= v.entries);
    } else {
        lemma_record_all(record_model(v, es[0]), es.drop_first());
        assert(v.entries.push(es[0]) + es.drop_first() =~= v.entries + es);
    }
}

/// Capturing `es` into an empty store yields exactly `es`: the count equals
/// `es.len()` and the rendering is the bodies of `es`, in emission order,
/// each followed by a newline.
pub proof fn lemma_emission_into_empty(v: SinkView, es: Seq<LogView>)
    requires
        v.entries.len() == 0,
    ensures
        record_all_model(v, es).entries == es,
        render_model(record_all_model(v, es).entries) == render_model(es),
{
    lemma_record_all(v, es);
    assert(v.entries + es =~= es);
}

/// A clear resets the sink: the store is empty afterwards, and every query
/// comes back false, whatever it returned before.
pub proof fn lemma_clear_resets(v: SinkView, level: Level, needle: Seq<char>)
    ensures
        clear_model(v).entries.len() == 0,
        !some_entry_matches(clear_model(v).entries, level, needle),
{
}

/// Relies on `str::contains` with a `&str` pattern: it returns true exactly
/// when the pattern occurs as a contiguous sub-slice of the haystack.
#[verifier::external_body]
fn str_contains(hay: &str, needle: &str) -> (r: bool)
    ensures
        r == has_substring(hay@, needle@),
{
    hay.contains(needle)
}

} // verus!
