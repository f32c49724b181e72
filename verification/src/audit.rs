//! The audit log: every read, write, listing, exec and refusal is an event
//! that is appended to the log file of its day.
use vstd::prelude::*;

use crate::deps;
use crate::lines;
use crate::order;
use crate::text;

verus! {

/// A moment: seconds since the epoch, and nanoseconds on top of them.
#[derive(Debug, Clone, Copy, PartialEq, Eq, Structural)]
pub struct Timestamp {
    pub secs: i64,
    pub nanos: u32,
}

impl Timestamp {
    /// Whether this moment comes before the other.
    pub open spec fn earlier(self, other: Timestamp) -> bool {
        self.secs < other.secs || (self.secs == other.secs && self.nanos < other.nanos)
    }

    /// Whether this moment comes before the other.
    pub fn is_before(&self, other: &Timestamp) -> (res: bool)
        ensures
            res == self.earlier(*other),
    {
        self.secs < other.secs || (self.secs == other.secs && self.nanos < other.nanos)
    }
}

/// How an operation ended.
#[derive(Debug, Clone)]
pub enum OpResult {
    Success,
    Denied { reason: String },
    Error { message: String },
}

/// What happened.
#[derive(Debug, Clone)]
pub enum Event {
    Read { path: String, bytes: u64, result: OpResult },
    Write {
        path: String,
        bytes: u64,
        /// Was an mtime check requested?
        mtime_check: bool,
        result: OpResult,
    },
    List { path: String, entries: usize, result: OpResult },
    Exec {
        cmd: String,
        exit_code: Option<i32>,
        duration_ms: u32,
        timed_out: bool,
        output_truncated: bool,
        result: OpResult,
    },
    /// Daemon lifecycle events.
    Lifecycle { event: String, detail: String },
}

/// An event with its moment and the policy mode at that moment.
#[derive(Debug, Clone)]
pub struct Entry {
    pub ts: Timestamp,
    pub mode: String,
    pub event: Event,
}

/// What an [`OpResult`] says.
#[verifier::ext_equal]
pub enum OpResultModel {
    Success,
    Denied { reason: Seq<char> },
    Error { message: Seq<char> },
}

impl View for OpResult {
    type V = OpResultModel;

    open spec fn view(&self) -> OpResultModel {
        match self {
            OpResult::Success => OpResultModel::Success,
            OpResult::Denied { reason } => OpResultModel::Denied { reason: reason@ },
            OpResult::Error { message } => OpResultModel::Error { message: message@ },
        }
    }
}

/// What an [`Event`] says.
#[verifier::ext_equal]
pub enum EventModel {
    Read { path: Seq<char>, bytes: u64, result: OpResultModel },
    Write { path: Seq<char>, bytes: u64, mtime_check: bool, result: OpResultModel },
    List { path: Seq<char>, entries: usize, result: OpResultModel },
    Exec {
        cmd: Seq<char>,
        exit_code: Option<i32>,
        duration_ms: u32,
        timed_out: bool,
        output_truncated: bool,
        result: OpResultModel,
    },
    Lifecycle { event: Seq<char>, detail: Seq<char> },
}

impl View for Event {
    type V = EventModel;

    open spec fn view(&self) -> EventModel {
        match self {
            Event::Read { path, bytes, result } => EventModel::Read {
                path: path@,
                bytes: *bytes,
                result: result@,
            },
            Event::Write { path, bytes, mtime_check, result } => EventModel::Write {
                path: path@,
                bytes: *bytes,
                mtime_check: *mtime_check,
                result: result@,
            },
            Event::List { path, entries, result } => EventModel::List {
                path: path@,
                entries: *entries,
                result: result@,
            },
            Event::Exec { cmd, exit_code, duration_ms, timed_out, output_truncated, result } => {
                EventModel::Exec {
                    cmd: cmd@,
                    exit_code: *exit_code,
                    duration_ms: *duration_ms,
                    timed_out: *timed_out,
                    output_truncated: *output_truncated,
                    result: result@,
                }
            },
            Event::Lifecycle { event, detail } => EventModel::Lifecycle {
                event: event@,
                detail: detail@,
            },
        }
    }
}

impl EventModel {
    /// How the operation ended; a lifecycle event has no such result.
    pub open spec fn outcome(self) -> Option<OpResultModel> {
        match self {
            EventModel::Read { result, .. } => Some(result),
            EventModel::Write { result, .. } => Some(result),
            EventModel::List { result, .. } => Some(result),
            EventModel::Exec { result, .. } => Some(result),
            EventModel::Lifecycle { .. } => None,
        }
    }
}

/// What an [`Entry`] says.
#[verifier::ext_equal]
pub struct EntryModel {
    pub ts: Timestamp,
    pub mode: Seq<char>,
    pub event: EventModel,
}

impl View for Entry {
    type V = EntryModel;

    open spec fn view(&self) -> EntryModel {
        EntryModel { ts: self.ts, mode: self.mode@, event: self.event@ }
    }
}

/// What to append: an entry, to the log of a day.
#[derive(Debug)]
pub struct LogRecord {
    pub day: String,
    pub entry: Entry,
}

/// A lifecycle event.
pub fn lifecycle(event: &str, detail: &str) -> (res: Event)
    ensures
        res@ == (EventModel::Lifecycle { event: event@, detail: detail@ }),
{
    Event::Lifecycle { event: event.to_string(), detail: detail.to_string() }
}

/// Audit log writer of a daemon in one policy mode.
#[derive(Clone)]
pub struct Audit {
    pub mode_name: String,
}

impl Audit {
    /// A writer for the policy mode of that name.
    pub fn new(mode_name: &str) -> (res: Audit)
        ensures
            res.mode_name@ == mode_name@,
    {
        Audit { mode_name: mode_name.to_string() }
    }

    /// An event in its envelope.
    pub open spec fn enveloped(self, event: EventModel, now: Timestamp) -> EntryModel {
        EntryModel { ts: now, mode: self.mode_name@, event }
    }

    /// The event in its envelope.
    pub fn entry(&self, event: Event, now: Timestamp) -> (res: Entry)
        ensures
            res@ == self.enveloped(event@, now),
    {
        Entry { ts: now, mode: self.mode_name.clone(), event }
    }

    /// What to append for an event that happened now: the event in its
    /// envelope, to the log of the UTC day; nothing if there is no such day.
    pub fn write(&self, event: Event, now: Timestamp) -> (res: Option<LogRecord>)
        ensures
            match (res, deps::utc_format(now.secs, now.nanos, deps::DAY_FORMAT@)) {
                (Some(r), Some(day)) => {
                    &&& r.day@ == day
                    &&& r.entry@ == self.enveloped(event@, now)
                },
                (None, None) => true,
                _ => false,
            },
    {
        match deps::format_utc(now.secs, now.nanos, deps::DAY_FORMAT) {
            Some(day) => Some(LogRecord { day, entry: self.entry(event, now) }),
            None => None,
        }
    }
}

/// A log with an entry appended, which is written as a JSON object.
pub open spec fn appended(log: Seq<char>, json: Seq<char>) -> Seq<char> {
    log + json + "\n"@
}

/// What to append to a log for an entry that is written as this JSON object.
pub fn log_line(json: &str) -> (res: String)
    ensures
        res@ == json@ + "\n"@,
        forall|log: Seq<char>| #[trigger] appended(log, json@) == log + res@,
{
    let res = text::text2(json, "\n");
    proof {
        assert forall|log: Seq<char>| #[trigger] appended(log, json@) == log + res@ by {
            assert(log + json@ + "\n"@ =~= log + (json@ + "\n"@));
        }
    }
    res
}

// ── Reading the log ─────────────────────────────────────────────────

/// The order in which the files of the log are read: that of their names, which
/// is that of their days.
pub fn log_order(names: &Vec<Vec<u8>>) -> (res: Vec<usize>)
    ensures
        order::is_order(order::keys_of(names@), 0, names@.len() as int, res@),
{
    order::sorted_order(names)
}

/// What some entries say.
pub open spec fn entries_model(entries: Seq<Entry>) -> Seq<EntryModel> {
    entries.map_values(|e: Entry| e@)
}

/// The entries that are not before `since`, in their order.
pub open spec fn entries_since(entries: Seq<EntryModel>, since: Timestamp) -> Seq<EntryModel>
    decreases entries.len(),
{
    if entries.len() == 0 {
        Seq::empty()
    } else {
        let before = entries_since(entries.drop_last(), since);
        if entries.last().ts.earlier(since) {
            before
        } else {
            before.push(entries.last())
        }
    }
}

/// The last `limit` entries, all of them if there are no more.
pub open spec fn last_entries(entries: Seq<EntryModel>, limit: nat) -> Seq<EntryModel> {
    if entries.len() <= limit {
        entries
    } else {
        entries.skip(entries.len() - limit)
    }
}

/// What is shown of the log.
#[derive(Debug)]
pub struct Selection {
    /// The entries shown, oldest first.
    pub shown: Vec<Entry>,
    /// How many there were to show.
    pub total: usize,
}

/// Selects the entries since a moment, at most `limit` of them, the latest.
pub fn select(entries: Vec<Entry>, since: Timestamp, limit: usize) -> (res: Selection)
    ensures
        res.total == entries_since(entries_model(entries@), since).len(),
        entries_model(res.shown@) == last_entries(
            entries_since(entries_model(entries@), since),
            limit as nat,
        ),
{
    let ghost all = entries_model(entries@);
    let ghost given = entries@;
    let mut kept: Vec<Entry> = Vec::new();
    proof {
        assert(all.take(0) =~= Seq::<EntryModel>::empty());
        assert(entries_model(kept@) =~= Seq::<EntryModel>::empty());
    }
    for e in it: entries
        invariant
            it.seq() == given,
            all == entries_model(given),
            entries_model(kept@) == entries_since(all.take(it.index()), since),
    {
        let ghost i = it.index();
        proof {
            assert(all.take(i + 1).drop_last() =~= all.take(i));
            assert(all.take(i + 1).last() == e@);
        }
        if !e.ts.is_before(&since) {
            let ghost before = entries_model(kept@);
            kept.push(e);
            assert(entries_model(kept@) =~= before.push(e@));
        }
    }
    proof {
        assert(all.take(all.len() as int) =~= all);
    }
    let total: usize = kept.len();
    let ghost found = entries_model(kept@);
    let shown = if total > limit {
        let tail = kept.split_off(total - limit);
        assert(entries_model(tail@) =~= found.skip(total - limit));
        tail
    } else {
        kept
    };
    Selection { shown, total }
}

impl Selection {
    /// The closing line under a listing, made for `limit`.
    pub open spec fn footer_says(self, limit: nat) -> Seq<char> {
        if self.total > limit {
            "("@ + text::decimal(limit) + " entries shown of "@ + text::decimal(self.total as nat)
                + " total; use --limit to widen)"@
        } else {
            "("@ + text::decimal(self.total as nat) + " entries)"@
        }
    }

    /// The closing line under a listing: how many entries there are, and how
    /// many of them are shown if not all.
    pub fn footer(&self, limit: usize) -> (res: String)
        ensures
            res@ == self.footer_says(limit as nat),
    {
        let total = text::decimal_text(self.total as u64);
        if self.total > limit {
            text::text5(
                "(",
                text::decimal_text(limit as u64).as_str(),
                " entries shown of ",
                total.as_str(),
                " total; use --limit to widen)",
            )
        } else {
            text::text3("(", total.as_str(), " entries)")
        }
    }
}

impl Entry {
    /// One line for the entry, given its event as JSON: its second, its mode,
    /// its event; nothing if its moment is out of range.
    pub fn line(&self, json: &str) -> (res: Option<String>)
        ensures
            match (res, deps::utc_format(self.ts.secs, self.ts.nanos, deps::SECOND_FORMAT@)) {
                (Some(line), Some(second)) => line@ == second + "  ["@ + self.mode@ + "]  "@ + json@,
                (None, None) => true,
                _ => false,
            },
    {
        match deps::format_utc(self.ts.secs, self.ts.nanos, deps::SECOND_FORMAT) {
            Some(second) => Some(
                text::text5(second.as_str(), "  [", self.mode.as_str(), "]  ", json),
            ),
            None => None,
        }
    }
}

/// Seconds in a day.
pub const DAY_SECS: i64 = 86_400;

/// The moment from which on the log is shown, if no text says so: a day before
/// now.
pub open spec fn day_before(now: Timestamp) -> Timestamp {
    Timestamp { secs: (now.secs - DAY_SECS) as i64, nanos: now.nanos }
}

/// The moment from which on the log is shown, given what the text for it says:
/// that moment, or a day before now if there is no text.
pub fn since_moment(since: Option<Result<Timestamp, String>>, now: Timestamp) -> (res: Result<
    Timestamp,
    String,
>)
    requires
        since is None ==> now.secs >= i64::MIN + DAY_SECS,
    ensures
        match since {
            None => res == Ok::<Timestamp, String>(day_before(now)),
            Some(Ok(t)) => res == Ok::<Timestamp, String>(t),
            Some(Err(e)) => res is Err && res->Err_0@ == "invalid --since: "@ + e@,
        },
{
    match since {
        None => Ok(Timestamp { secs: now.secs - DAY_SECS, nanos: now.nanos }),
        Some(Ok(t)) => Ok(t),
        Some(Err(e)) => Err(text::text2("invalid --since: ", e.as_str())),
    }
}

/// The moment from which on the log is shown: the RFC 3339 text `since`, or a
/// day before now if there is none.
pub fn parse_since(since: Option<&str>, now: Timestamp) -> (res: Result<Timestamp, String>)
    requires
        since is None ==> now.secs >= i64::MIN + DAY_SECS,
    ensures
        match since {
            None => res == Ok::<Timestamp, String>(day_before(now)),
            Some(s) => match deps::rfc3339_of(s@) {
                Ok((secs, nanos)) => res == Ok::<Timestamp, String>(Timestamp { secs, nanos }),
                Err(e) => res is Err && res->Err_0@ == "invalid --since: "@ + e,
            },
        },
{
    match since {
        None => since_moment(None, now),
        Some(s) => match deps::parse_rfc3339(s) {
            Ok((secs, nanos)) => since_moment(Some(Ok(Timestamp { secs, nanos })), now),
            Err(e) => since_moment(Some(Err(e)), now),
        },
    }
}

// ── Laws ────────────────────────────────────────────────────────────

/// Whether every entry in a log ends its line.
pub open spec fn is_log(log: Seq<char>) -> bool {
    log.len() == 0 || log.last() == '\n'
}

/// The log holds a line for each entry: one more entry leaves the lines before it
/// as they were and is the line behind them. JSON escapes line feeds and carriage
/// returns, so that an entry holds neither.
pub proof fn law_each_entry_is_a_line(log: Seq<char>, json: Seq<char>)
    requires
        is_log(log),
        !json.contains('\n'),
        !json.contains('\r'),
    ensures
        is_log(appended(log, json)),
        lines::lines_of(appended(log, json)) == lines::lines_of(log).push(json),
{
    reveal_strlit("\n");
    let all = appended(log, json);
    lemma_open_line(log, json);
    assert(all.last() == '\n');
    assert(all.drop_last() =~= log + json);
    if json.len() > 0 {
        assert(json.contains(json.last()));
    }
    assert(lines::without_return(json) == json);
}

/// What follows the last line feed is no line yet.
proof fn lemma_open_line(log: Seq<char>, json: Seq<char>)
    requires
        is_log(log),
        !json.contains('\n'),
    ensures
        lines::ended_lines(log + json) == (lines::lines_of(log), json),
    decreases json.len(),
{
    if json.len() == 0 {
        assert(log + json =~= log);
        assert(json =~= Seq::<char>::empty());
    } else {
        let rest = json.drop_last();
        assert(json.contains(json.last()));
        assert(!rest.contains('\n')) by {
            if rest.contains('\n') {
                let k = choose|k: int| 0 <= k < rest.len() && rest[k] == '\n';
                assert(json[k] == '\n');
            }
        }
        lemma_open_line(log, rest);
        assert((log + json).drop_last() =~= log + rest);
        assert(rest.push(json.last()) =~= json);
    }
}

/// The log shows entries of the log only, none from before the moment asked
/// for and no more than the limit; and all of those since that moment if they
/// are no more than the limit.
pub proof fn law_shown_is_recent(entries: Seq<EntryModel>, since: Timestamp, limit: nat)
    ensures
        ({
            let found = entries_since(entries, since);
            let shown = last_entries(found, limit);
            &&& shown.len() <= limit
            &&& forall|i: int|
                0 <= i < shown.len() ==> {
                    &&& !(#[trigger] shown[i]).ts.earlier(since)
                    &&& entries.contains(shown[i])
                }
            &&& found.len() <= limit ==> forall|i: int|
                0 <= i < entries.len() && !(#[trigger] entries[i]).ts.earlier(since)
                    ==> shown.contains(entries[i])
        }),
{
    lemma_since(entries, since);
}

proof fn lemma_since(entries: Seq<EntryModel>, since: Timestamp)
    ensures
        forall|i: int|
            0 <= i < entries_since(entries, since).len() ==> {
                &&& !(#[trigger] entries_since(entries, since)[i]).ts.earlier(since)
                &&& entries.contains(entries_since(entries, since)[i])
            },
        forall|i: int|
            0 <= i < entries.len() && !(#[trigger] entries[i]).ts.earlier(since)
                ==> entries_since(entries, since).contains(entries[i]),
    decreases entries.len(),
{
    if entries.len() > 0 {
        let front = entries.drop_last();
        lemma_since(front, since);
        let found = entries_since(entries, since);
        let before = entries_since(front, since);
        assert forall|i: int| 0 <= i < found.len() implies {
            &&& !(#[trigger] found[i]).ts.earlier(since)
            &&& entries.contains(found[i])
        } by {
            if i < before.len() {
                assert(found[i] == before[i]);
                let k = choose|k: int| 0 <= k < front.len() && front[k] == before[i];
                assert(entries[k] == found[i]);
            } else {
                assert(found[i] == entries[entries.len() - 1]);
            }
        }
        assert forall|i: int|
            0 <= i < entries.len() && !(#[trigger] entries[i]).ts.earlier(since) implies found.contains(
            entries[i],
        ) by {
            if i < front.len() {
                assert(front[i] == entries[i]);
                assert(before.contains(front[i]));
                let k = choose|k: int| 0 <= k < before.len() && before[k] == front[i];
                assert(found[k] == entries[i]);
            } else {
                assert(found[found.len() - 1] == entries[i]);
            }
        }
    }
}

/// One moment is before another if it is so in nanoseconds.
pub proof fn law_moments_are_ordered(a: Timestamp, b: Timestamp)
    requires
        a.nanos < 1_000_000_000,
        b.nanos < 1_000_000_000,
    ensures
        a.earlier(b) <==> a.secs * 1_000_000_000 + a.nanos < b.secs * 1_000_000_000 + b.nanos,
{
}

/// An entry is shown or not for its own moment only: what is found in two parts of
/// the log, one after the other, is what is found in each; of one entry, itself
/// unless it is before the moment asked for.
pub proof fn law_entries_are_found_one_by_one(
    a: Seq<EntryModel>,
    b: Seq<EntryModel>,
    e: EntryModel,
    since: Timestamp,
)
    ensures
        entries_since(a + b, since) == entries_since(a, since) + entries_since(b, since),
        e.ts.earlier(since) ==> entries_since(seq![e], since) == Seq::<EntryModel>::empty(),
        !e.ts.earlier(since) ==> entries_since(seq![e], since) == seq![e],
    decreases b.len(),
{
    let one = seq![e];
    assert(one.drop_last() =~= Seq::<EntryModel>::empty());
    assert(one.last() == e);
    assert(entries_since(one.drop_last(), since) =~= Seq::<EntryModel>::empty());
    assert(Seq::<EntryModel>::empty().push(e) =~= one);
    if b.len() == 0 {
        assert(a + b =~= a);
        assert(entries_since(a, since) + Seq::<EntryModel>::empty() =~= entries_since(a, since));
    } else {
        assert((a + b).drop_last() =~= a + b.drop_last());
        assert((a + b).last() == b.last());
        law_entries_are_found_one_by_one(a, b.drop_last(), e, since);
        assert(entries_since(a + b, since) =~= entries_since(a, since) + entries_since(b, since));
    }
}

/// What is shown are the latest of the entries found, as many as the limit allows,
/// and all of them if it allows all.
pub proof fn law_latest_entries_are_shown(found: Seq<EntryModel>, limit: nat)
    ensures
        ({
            let shown = last_entries(found, limit);
            &&& found.len() <= limit ==> shown == found
            &&& found.len() > limit ==> shown.len() == limit
            &&& found.take(found.len() - shown.len()) + shown == found
        }),
{
    let shown = last_entries(found, limit);
    assert(found.take(found.len() - shown.len()) + shown =~= found);
}

/// The closing line says how many entries are shown, and of how many if not of all
/// of them.
pub proof fn law_footer_counts(selection: Selection, limit: nat)
    ensures
        selection.total <= limit ==> selection.footer_says(limit) == "("@ + text::decimal(
            selection.total as nat,
        ) + " entries)"@,
        selection.total > limit ==> selection.footer_says(limit) == "("@ + text::decimal(limit)
            + " entries shown of "@ + text::decimal(selection.total as nat)
            + " total; use --limit to widen)"@,
{
}

/// Every operation's event has its result, and no other event has one.
pub proof fn law_operations_have_results(result: OpResultModel, path: Seq<char>, n: u64, check: bool)
    ensures
        (EventModel::Read { path, bytes: n, result }).outcome() == Some(result),
        (EventModel::Write { path, bytes: n, mtime_check: check, result }).outcome() == Some(result),
        (EventModel::List { path, entries: 0, result }).outcome() == Some(result),
        (EventModel::Exec {
            cmd: path,
            exit_code: None,
            duration_ms: 0,
            timed_out: check,
            output_truncated: check,
            result,
        }).outcome() == Some(result),
        (EventModel::Lifecycle { event: path, detail: path }).outcome() is None,
{
}

/// Without a moment asked for, the log of the last day is shown.
pub proof fn law_last_day_is_shown(now: Timestamp, e: EntryModel)
    requires
        now.secs >= i64::MIN + 86_400,
        now.nanos < 1_000_000_000,
        e.ts.nanos < 1_000_000_000,
    ensures
        e.ts.earlier(day_before(now)) <==> e.ts.secs * 1_000_000_000 + e.ts.nanos + 86_400
            * 1_000_000_000 < now.secs * 1_000_000_000 + now.nanos,
{
}

/// An entry holds the event as it happened, its moment, and the mode that the
/// daemon was in.
pub proof fn law_entries_hold_their_event(audit: Audit, event: EventModel, now: Timestamp)
    ensures
        audit.enveloped(event, now).event == event,
        audit.enveloped(event, now).ts == now,
        audit.enveloped(event, now).mode == audit.mode_name@,
{
}

/// What an event says is what it holds.
pub proof fn law_events_say_what_they_hold(
    text: String,
    n: u64,
    count: usize,
    flag: bool,
    code: Option<i32>,
    ms: u32,
    result: OpResult,
    other: bool,
)
    ensures
        (Event::Read { path: text, bytes: n, result })@ == (EventModel::Read {
            path: text@,
            bytes: n,
            result: result@,
        }),
        (Event::Write { path: text, bytes: n, mtime_check: flag, result })@ == (EventModel::Write {
            path: text@,
            bytes: n,
            mtime_check: flag,
            result: result@,
        }),
        (Event::List { path: text, entries: count, result })@ == (EventModel::List {
            path: text@,
            entries: count,
            result: result@,
        }),
        (Event::Exec {
            cmd: text,
            exit_code: code,
            duration_ms: ms,
            timed_out: flag,
            output_truncated: other,
            result,
        })@ == (EventModel::Exec {
            cmd: text@,
            exit_code: code,
            duration_ms: ms,
            timed_out: flag,
            output_truncated: other,
            result: result@,
        }),
        (Event::Lifecycle { event: text, detail: text })@ == (EventModel::Lifecycle {
            event: text@,
            detail: text@,
        }),
        OpResult::Success@ is Success,
        (OpResult::Denied { reason: text })@ == (OpResultModel::Denied { reason: text@ }),
        (OpResult::Error { message: text })@ == (OpResultModel::Error { message: text@ }),
{
}

/// What some entries say is what each of them says, in their order.
pub proof fn law_entries_say_what_they_hold(entries: Seq<Entry>, i: int)
    requires
        0 <= i < entries.len(),
    ensures
        entries_model(entries).len() == entries.len(),
        entries_model(entries)[i].ts == entries[i].ts,
        entries_model(entries)[i].mode == entries[i].mode@,
        entries_model(entries)[i].event == entries[i].event@,
{
}

} // verus!
