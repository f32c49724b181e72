//! List a directory's contents.
//!
//! The directory must be allowed by policy. Hidden entries (whose name starts
//! with a dot) are skipped, as is what cannot be examined or named; the rest
//! is sorted by name.
use vstd::prelude::*;

use crate::audit;
use crate::audit::{Event, OpResult};
use crate::config;
use crate::config::Config;
use crate::handlers;
use crate::handlers::IoFailure;
use crate::order;
use crate::resolve::Resolution;
use crate::text;
use crate::wire;
use crate::wire::{DaemonError, DaemonResult, DirEntry, ListDirReq, ListDirResp};

verus! {

/// What examining a directory entry gave.
#[derive(Debug, Clone, Copy)]
pub struct FoundMeta {
    pub is_dir: bool,
    pub len: u64,
}

/// An entry of a directory: its name if that is text, and what examining it
/// gave if that succeeded.
#[derive(Debug)]
pub struct FoundEntry {
    pub name: Option<String>,
    pub meta: Option<FoundMeta>,
}

/// What a [`FoundEntry`] says.
#[verifier::ext_equal]
pub struct FoundModel {
    pub name: Option<Seq<char>>,
    pub meta: Option<FoundMeta>,
}

impl View for FoundEntry {
    type V = FoundModel;

    open spec fn view(&self) -> FoundModel {
        FoundModel { name: text::said(self.name), meta: self.meta }
    }
}

/// What to do next for a listing.
pub enum ListStep {
    /// Read the directory.
    ReadDir,
    /// Record the event, and answer.
    Done { event: Event, result: DaemonResult<ListDirResp> },
}

/// What a [`ListStep`] says.
#[verifier::ext_equal]
pub enum ListStepModel {
    ReadDir,
    Done {
        event: audit::EventModel,
        result: Result<Seq<wire::DirEntryModel>, wire::DaemonErrorModel>,
    },
}

impl View for ListStep {
    type V = ListStepModel;

    open spec fn view(&self) -> ListStepModel {
        match self {
            ListStep::ReadDir => ListStepModel::ReadDir,
            ListStep::Done { event, result } => ListStepModel::Done {
                event: event@,
                result: wire::reply(*result),
            },
        }
    }
}

/// Whether an entry is hidden.
pub open spec fn is_hidden(name: Seq<char>) -> bool {
    name.len() > 0 && name[0] == '.'
}

/// The line for an entry, if it is shown at all.
pub open spec fn shown(found: FoundModel) -> Option<wire::DirEntryModel> {
    match (found.name, found.meta) {
        (Some(name), Some(meta)) => if is_hidden(name) {
            None
        } else {
            Some(
                wire::DirEntryModel {
                    name,
                    is_dir: meta.is_dir,
                    size_bytes: if meta.is_dir {
                        0
                    } else {
                        meta.len
                    },
                },
            )
        },
        _ => None,
    }
}

/// The lines for the entries that are shown, in the order they were found.
pub open spec fn visible(found: Seq<FoundModel>) -> Seq<wire::DirEntryModel>
    decreases found.len(),
{
    if found.len() == 0 {
        Seq::empty()
    } else {
        let before = visible(found.drop_last());
        match shown(found.last()) {
            Some(line) => before.push(line),
            None => before,
        }
    }
}

/// The names of some lines, as bytes.
pub open spec fn names(lines: Seq<wire::DirEntryModel>) -> Seq<Seq<u8>> {
    lines.map_values(|l: wire::DirEntryModel| vstd::utf8::encode_utf8(l.name))
}

/// The lines in a given order.
pub open spec fn arranged(lines: Seq<wire::DirEntryModel>, by: Seq<usize>) -> Seq<
    wire::DirEntryModel,
> {
    by.map_values(|i: usize| lines[i as int])
}

/// Whether `listing` is `lines` sorted by name, equal names as they were.
pub open spec fn is_listing(
    lines: Seq<wire::DirEntryModel>,
    listing: Seq<wire::DirEntryModel>,
) -> bool {
    exists|by: Seq<usize>|
        order::is_order(names(lines), 0, lines.len() as int, by) && listing == #[trigger] arranged(
            lines,
            by,
        )
}

/// What some entries say.
pub open spec fn found_model(found: Seq<FoundEntry>) -> Seq<FoundModel> {
    found.map_values(|e: FoundEntry| e@)
}

/// A listing that ended with an error.
pub open spec fn list_refused(
    path: Seq<char>,
    result: audit::OpResultModel,
    error: wire::DaemonErrorModel,
) -> ListStepModel {
    ListStepModel::Done {
        event: audit::EventModel::List { path, entries: 0, result },
        result: Err(error),
    }
}

/// The first step of a listing.
pub open spec fn begin(
    path: Seq<char>,
    cfg: config::ConfigModel,
    resolution: Resolution,
) -> ListStepModel {
    if cfg.policy.allows_path(path, resolution) {
        ListStepModel::ReadDir
    } else {
        list_refused(
            path,
            audit::OpResultModel::Denied { reason: "path not in workspace"@ },
            wire::DaemonErrorModel::PathNotAllowed(path),
        )
    }
}

/// Whether a listing ends so, after the directory was read.
pub open spec fn after_read(
    path: Seq<char>,
    found: Result<Vec<FoundEntry>, IoFailure>,
    end: ListStepModel,
) -> bool {
    match found {
        Err(e) => end == list_refused(
            path,
            audit::OpResultModel::Error { message: handlers::access_message(e) },
            handlers::access_error(e, path),
        ),
        Ok(found) => {
            let lines = visible(found_model(found@));
            &&& end is Done
            &&& end->event == (audit::EventModel::List {
                path,
                entries: lines.len() as usize,
                result: audit::OpResultModel::Success,
            })
            &&& end->result is Ok
            &&& is_listing(lines, end->result->Ok_0)
        },
    }
}

/// Ends a listing with an error.
fn refusal(path: &str, result: OpResult, error: DaemonError) -> (res: ListStep)
    ensures
        res@ == list_refused(path@, result@, error@),
{
    ListStep::Done {
        event: Event::List { path: path.to_string(), entries: 0, result },
        result: Err(error),
    }
}

/// Starts a listing: refuses it, or asks for the directory to be read.
pub fn handle(req: &ListDirReq, cfg: &Config, resolution: &Resolution) -> (res: ListStep)
    ensures
        res@ == begin(req.path@, cfg@, *resolution),
{
    if !cfg.policy.path_allowed(req.path.as_str(), resolution) {
        return refusal(
            req.path.as_str(),
            OpResult::Denied { reason: "path not in workspace".to_string() },
            DaemonError::PathNotAllowed(req.path.clone()),
        );
    }
    ListStep::ReadDir
}

/// What some lines say.
spec fn lines_model(lines: Seq<DirEntry>) -> Seq<wire::DirEntryModel> {
    lines.map_values(|e: DirEntry| e@)
}

/// The line for an entry, if it is shown at all.
fn line_for(found: FoundEntry) -> (res: Option<DirEntry>)
    ensures
        match (res, shown(found@)) {
            (Some(line), Some(m)) => line@ == m,
            (None, None) => true,
            _ => false,
        },
{
    let meta = match found.meta {
        Some(meta) => meta,
        None => {
            return None;
        },
    };
    let name = match found.name {
        Some(name) => name,
        None => {
            return None;
        },
    };
    let cs = text::chars_of(name.as_str());
    if cs.len() > 0 && cs[0] == '.' {
        return None;
    }
    let size_bytes: u64 = if meta.is_dir {
        0
    } else {
        meta.len
    };
    Some(DirEntry { name, is_dir: meta.is_dir, size_bytes })
}

/// The lines for the entries that are shown.
fn lines_for(found: Vec<FoundEntry>) -> (res: Vec<DirEntry>)
    ensures
        lines_model(res@) == visible(found_model(found@)),
{
    let ghost given = found@;
    let ghost all = found_model(found@);
    let mut lines: Vec<DirEntry> = Vec::new();
    proof {
        assert(all.take(0) =~= Seq::<FoundModel>::empty());
        assert(lines_model(lines@) =~= Seq::<wire::DirEntryModel>::empty());
    }
    for e in it: found
        invariant
            it.seq() == given,
            all == found_model(given),
            lines_model(lines@) == visible(all.take(it.index())),
    {
        let ghost i = it.index();
        proof {
            assert(all.take(i + 1).drop_last() =~= all.take(i));
            assert(all.take(i + 1).last() == e@);
        }
        let ghost before = lines_model(lines@);
        match line_for(e) {
            Some(line) => {
                lines.push(line);
                assert(lines_model(lines@) =~= before.push(line@));
            },
            None => {},
        }
    }
    proof {
        assert(all.take(all.len() as int) =~= all);
    }
    lines
}

/// The lines, sorted by name.
fn sorted(lines: &Vec<DirEntry>) -> (res: Vec<DirEntry>)
    ensures
        is_listing(lines_model(lines@), lines_model(res@)),
{
    let ghost model = lines_model(lines@);
    let n: usize = lines.len();
    let mut keys: Vec<Vec<u8>> = Vec::new();
    let mut i: usize = 0;
    while i < n
        invariant
            n == lines@.len(),
            i <= n,
            model == lines_model(lines@),
            keys@.len() == i,
            forall|j: int| 0 <= j < i ==> (#[trigger] keys@[j])@ == names(model)[j],
        decreases n - i,
    {
        let bytes = lines[i].name.as_str().as_bytes();
        keys.push(wire::copy_range(bytes, 0, bytes.len()));
        proof {
            assert(bytes@.subrange(0, bytes@.len() as int) =~= bytes@);
        }
        i += 1;
    }
    proof {
        assert(order::keys_of(keys@) =~= names(model));
    }
    let by = order::sorted_order(&keys);
    let mut out: Vec<DirEntry> = Vec::new();
    let mut k: usize = 0;
    while k < n
        invariant
            n == lines@.len(),
            n == by@.len(),
            k <= n,
            model == lines_model(lines@),
            order::is_order(names(model), 0, n as int, by@),
            out@.len() == k,
            forall|j: int| 0 <= j < k ==> (#[trigger] out@[j])@ == model[by@[j] as int],
        decreases n - k,
    {
        let e = &lines[by[k]];
        let copy = DirEntry {
            name: e.name.clone(),
            is_dir: e.is_dir,
            size_bytes: e.size_bytes,
        };
        proof {
            assert(copy@ == model[by@[k as int] as int]);
        }
        out.push(copy);
        k += 1;
    }
    proof {
        assert(lines_model(out@) =~= arranged(model, by@));
    }
    out
}

/// Ends a listing with the directory's entries, or with the error that reading
/// it gave.
pub fn listed(req: &ListDirReq, found: Result<Vec<FoundEntry>, IoFailure>) -> (res: ListStep)
    ensures
        after_read(req.path@, found, res@),
{
    match found {
        Err(e) => {
            let (message, error) = handlers::access_failure(e, req.path.as_str());
            refusal(req.path.as_str(), OpResult::Error { message }, error)
        },
        Ok(found) => {
            let lines = lines_for(found);
            let entries = sorted(&lines);
            proof {
                let model = lines_model(lines@);
                assert(lines_model(entries@).len() == model.len());
            }
            let event = Event::List {
                path: req.path.clone(),
                entries: entries.len(),
                result: OpResult::Success,
            };
            ListStep::Done { event, result: Ok(ListDirResp { entries }) }
        },
    }
}

// ── Laws ────────────────────────────────────────────────────────────

/// Whether a listing ends so, given what reading the directory gives.
pub open spec fn ends(
    path: Seq<char>,
    cfg: config::ConfigModel,
    resolution: Resolution,
    found: Result<Vec<FoundEntry>, IoFailure>,
    end: ListStepModel,
) -> bool {
    match begin(path, cfg, resolution) {
        ListStepModel::ReadDir => after_read(path, found, end),
        step => end == step,
    }
}

/// Every listing ends in one answer and one event, which names the path asked
/// for, counts the entries answered, and says success exactly when the answer
/// does.
pub proof fn law_list_is_audited(
    path: Seq<char>,
    cfg: config::ConfigModel,
    resolution: Resolution,
    found: Result<Vec<FoundEntry>, IoFailure>,
    end: ListStepModel,
)
    requires
        ends(path, cfg, resolution, found, end),
    ensures
        end is Done,
        end->event is List,
        end->event->List_path == path,
        end->event->List_result is Success <==> end->result is Ok,
        end->result is Ok ==> end->event->entries == end->result->Ok_0.len() as usize,
{
    if end->result is Ok {
        assert(found is Ok);
        let lines = visible(found_model(found->Ok_0@));
        let by = choose|by: Seq<usize>|
            order::is_order(names(lines), 0, lines.len() as int, by) && end->result->Ok_0
                == #[trigger] arranged(lines, by);
    }
}

/// A directory that policy refuses is answered so, whatever is in it.
pub proof fn law_list_outside_is_refused(
    path: Seq<char>,
    cfg: config::ConfigModel,
    resolution: Resolution,
    found: Result<Vec<FoundEntry>, IoFailure>,
    end: ListStepModel,
)
    requires
        !cfg.policy.allows_path(path, resolution),
        ends(path, cfg, resolution, found, end),
    ensures
        end == list_refused(
            path,
            audit::OpResultModel::Denied { reason: "path not in workspace"@ },
            wire::DaemonErrorModel::PathNotAllowed(path),
        ),
{
}

proof fn lemma_visible(found: Seq<FoundModel>)
    ensures
        forall|i: int|
            0 <= i < visible(found).len() ==> !is_hidden((#[trigger] visible(found)[i]).name),
        forall|i: int|
            0 <= i < found.len() && shown(#[trigger] found[i]) is Some ==> visible(found).contains(
                shown(found[i])->Some_0,
            ),
    decreases found.len(),
{
    if found.len() > 0 {
        let front = found.drop_last();
        lemma_visible(front);
        let all = visible(found);
        let before = visible(front);
        assert forall|i: int|
            0 <= i < found.len() && shown(#[trigger] found[i]) is Some implies all.contains(
            shown(found[i])->Some_0,
        ) by {
            if i < front.len() {
                assert(front[i] == found[i]);
                assert(before.contains(shown(front[i])->Some_0));
                let k = choose|k: int|
                    0 <= k < before.len() && before[k] == shown(front[i])->Some_0;
                assert(all[k] == shown(found[i])->Some_0);
            } else {
                assert(all[all.len() - 1] == shown(found[i])->Some_0);
            }
        }
        assert forall|i: int| 0 <= i < all.len() implies !is_hidden((#[trigger] all[i]).name) by {
            if i < before.len() {
                assert(all[i] == before[i]);
            }
        }
    }
}

/// A listing is sorted by name, shows no hidden entry, and leaves out none that
/// can be examined and named and is not hidden.
pub proof fn law_listing_is_sorted_and_complete(
    found: Seq<FoundModel>,
    listing: Seq<wire::DirEntryModel>,
)
    requires
        is_listing(visible(found), listing),
        visible(found).len() <= usize::MAX,
    ensures
        forall|i: int, j: int|
            0 <= i < j < listing.len() ==> {
                let a = vstd::utf8::encode_utf8((#[trigger] listing[i]).name);
                let b = vstd::utf8::encode_utf8((#[trigger] listing[j]).name);
                order::bytes_lt(a, b) || a == b
            },
        forall|i: int| 0 <= i < listing.len() ==> !is_hidden((#[trigger] listing[i]).name),
        forall|i: int|
            0 <= i < found.len() && shown(#[trigger] found[i]) is Some ==> listing.contains(
                shown(found[i])->Some_0,
            ),
{
    let lines = visible(found);
    lemma_visible(found);
    let by = choose|by: Seq<usize>|
        order::is_order(names(lines), 0, lines.len() as int, by) && listing == #[trigger] arranged(
            lines,
            by,
        );
    assert forall|i: int, j: int| 0 <= i < j < listing.len() implies {
        let a = vstd::utf8::encode_utf8((#[trigger] listing[i]).name);
        let b = vstd::utf8::encode_utf8((#[trigger] listing[j]).name);
        order::bytes_lt(a, b) || a == b
    } by {
        assert(order::comes_before(names(lines), by[i] as int, by[j] as int));
        assert(listing[i] == lines[by[i] as int]);
        assert(listing[j] == lines[by[j] as int]);
    }
    assert forall|i: int| 0 <= i < listing.len() implies !is_hidden(
        (#[trigger] listing[i]).name,
    ) by {
        assert(listing[i] == lines[by[i] as int]);
    }
    assert forall|i: int|
        0 <= i < found.len() && shown(#[trigger] found[i]) is Some implies listing.contains(
        shown(found[i])->Some_0,
    ) by {
        let line = shown(found[i])->Some_0;
        assert(lines.contains(line));
        let k = choose|k: int| 0 <= k < lines.len() && lines[k] == line;
        assert(by.contains(k as usize));
        let p = choose|p: int| 0 <= p < by.len() && by[p] == k as usize;
        assert(listing[p] == line);
    }
}

/// One directory has one listing: what was found decides it fully.
pub proof fn law_listing_is_unique(
    lines: Seq<wire::DirEntryModel>,
    a: Seq<wire::DirEntryModel>,
    b: Seq<wire::DirEntryModel>,
)
    requires
        is_listing(lines, a),
        is_listing(lines, b),
    ensures
        a == b,
{
    let x = choose|by: Seq<usize>|
        order::is_order(names(lines), 0, lines.len() as int, by) && a == #[trigger] arranged(
            lines,
            by,
        );
    let y = choose|by: Seq<usize>|
        order::is_order(names(lines), 0, lines.len() as int, by) && b == #[trigger] arranged(
            lines,
            by,
        );
    order::law_order_is_unique(names(lines), lines.len() as int, x, y);
}

/// Whether a line is what a listing says of an entry: the entry has a name that
/// does not start with a dot and could be examined, and the line has that name,
/// says whether it is a directory, and gives the size of a file and 0 for a
/// directory.
pub open spec fn is_line_for(found: FoundModel, line: wire::DirEntryModel) -> bool {
    &&& found.name == Some(line.name)
    &&& line.name.len() > 0 ==> line.name[0] != '.'
    &&& found.meta matches Some(meta) && {
        &&& line.is_dir == meta.is_dir
        &&& meta.is_dir ==> line.size_bytes == 0
        &&& !meta.is_dir ==> line.size_bytes == meta.len
    }
}

/// Whether an entry is left out of a listing: it has no name, cannot be examined,
/// or its name starts with a dot.
pub open spec fn is_left_out(found: FoundModel) -> bool {
    ||| found.name is None
    ||| found.meta is None
    ||| found.name->Some_0.len() > 0 && found.name->Some_0[0] == '.'
}

/// Where the lines come from.
proof fn lemma_sources(found: Seq<FoundModel>) -> (from: Seq<int>)
    ensures
        from.len() == visible(found).len(),
        forall|k: int|
            0 <= k < from.len() ==> 0 <= #[trigger] from[k] < found.len() && is_line_for(
                found[from[k]],
                visible(found)[k],
            ),
        forall|k: int, l: int|
            0 <= k < l < from.len() ==> #[trigger] from[k] < #[trigger] from[l],
        forall|i: int|
            0 <= i < found.len() && !is_left_out(#[trigger] found[i]) ==> from.contains(i),
    decreases found.len(),
{
    if found.len() == 0 {
        Seq::empty()
    } else {
        let front = found.drop_last();
        let last = found.len() - 1;
        let before = lemma_sources(front);
        let from = if shown(found.last()) is Some {
            before.push(last)
        } else {
            before
        };
        assert forall|k: int| 0 <= k < from.len() implies 0 <= #[trigger] from[k] < found.len()
            && is_line_for(found[from[k]], visible(found)[k]) by {
            if k < before.len() {
                assert(from[k] == before[k]);
                assert(front[before[k]] == found[before[k]]);
                assert(visible(found)[k] == visible(front)[k]);
            } else {
                assert(found[last] == found.last());
            }
        }
        assert forall|k: int, l: int| 0 <= k < l < from.len() implies #[trigger] from[k]
            < #[trigger] from[l] by {
            assert(from[k] == before[k]);
            if l < before.len() {
                assert(from[l] == before[l]);
            }
        }
        assert forall|i: int|
            0 <= i < found.len() && !is_left_out(#[trigger] found[i]) implies from.contains(i) by {
            if i < last {
                assert(front[i] == found[i]);
                assert(before.contains(i));
                let k = choose|k: int| 0 <= k < before.len() && before[k] == i;
                assert(from[k] == i);
            } else {
                assert(found[last] == found.last());
                assert(shown(found.last()) is Some);
                assert(from[from.len() - 1] == last);
            }
        }
        from
    }
}

/// A listing holds one line for each entry of the directory that is not left out,
/// and nothing else: there is a way to go from the lines to the entries that hits
/// every such entry, none twice, and under which each line is the one for its
/// entry.
pub proof fn law_listing_has_a_line_for_each_entry(
    found: Seq<FoundModel>,
    listing: Seq<wire::DirEntryModel>,
) -> (from: Seq<int>)
    requires
        is_listing(visible(found), listing),
        visible(found).len() <= usize::MAX,
    ensures
        from.len() == listing.len(),
        from.no_duplicates(),
        forall|k: int|
            0 <= k < from.len() ==> 0 <= #[trigger] from[k] < found.len() && is_line_for(
                found[from[k]],
                listing[k],
            ),
        forall|i: int|
            0 <= i < found.len() && !is_left_out(#[trigger] found[i]) ==> from.contains(i),
{
    let lines = visible(found);
    let source = lemma_sources(found);
    let by = choose|by: Seq<usize>|
        order::is_order(names(lines), 0, lines.len() as int, by) && listing == #[trigger] arranged(
            lines,
            by,
        );
    let from = Seq::new(by.len(), |k: int| source[by[k] as int]);
    assert forall|k: int, l: int| 0 <= k < from.len() && 0 <= l < from.len() && k != l implies from[k]
        != from[l] by {
        if k < l {
            assert(order::comes_before(names(lines), by[k] as int, by[l] as int));
        } else {
            assert(order::comes_before(names(lines), by[l] as int, by[k] as int));
        }
        order::law_nothing_comes_before_itself(names(lines)[by[k] as int]);
        if by[k] == by[l] {
            assert(false);
        } else if by[k] < by[l] {
            assert(source[by[k] as int] < source[by[l] as int]);
        } else {
            assert(source[by[l] as int] < source[by[k] as int]);
        }
    }
    assert forall|k: int| 0 <= k < from.len() implies 0 <= #[trigger] from[k] < found.len()
        && is_line_for(found[from[k]], listing[k]) by {
        assert(0 <= by[k] < lines.len());
        assert(listing[k] == lines[by[k] as int]);
        assert(0 <= source[by[k] as int] < found.len());
    }
    assert forall|i: int|
        0 <= i < found.len() && !is_left_out(#[trigger] found[i]) implies from.contains(i) by {
        assert(source.contains(i));
        let s = choose|s: int| 0 <= s < source.len() && source[s] == i;
        assert(by.contains(s as usize));
        let k = choose|k: int| 0 <= k < by.len() && by[k] == s as usize;
        assert(from[k] == i);
    }
    from
}

/// An allowed directory is listed: where it can be read, the listing ends with its
/// lines, and records how many there are.
pub proof fn law_allowed_directory_is_listed(
    path: Seq<char>,
    cfg: config::ConfigModel,
    resolution: Resolution,
    found: Vec<FoundEntry>,
    end: ListStepModel,
)
    requires
        cfg.policy.allows_path(path, resolution),
        ends(path, cfg, resolution, Ok(found), end),
    ensures
        begin(path, cfg, resolution) is ReadDir,
        end is Done,
        end->result is Ok,
        is_listing(visible(found_model(found@)), end->result->Ok_0),
        end->event == (audit::EventModel::List {
            path,
            entries: visible(found_model(found@)).len() as usize,
            result: audit::OpResultModel::Success,
        }),
{
}

/// A directory that cannot be read is answered with what went wrong: not found, no
/// permission, or the system's own message.
pub proof fn law_failed_listing_says_why(
    path: Seq<char>,
    cfg: config::ConfigModel,
    resolution: Resolution,
    failure: IoFailure,
    end: ListStepModel,
)
    requires
        cfg.policy.allows_path(path, resolution),
        ends(path, cfg, resolution, Err(failure), end),
    ensures
        end is Done,
        end->result is Err,
        failure.kind == handlers::IoKind::NotFound ==> end->result->Err_0
            == wire::DaemonErrorModel::NotFound(path) && end->event->List_result
            == (audit::OpResultModel::Error { message: "not found"@ }),
        failure.kind == handlers::IoKind::PermissionDenied ==> end->result->Err_0
            == wire::DaemonErrorModel::PermissionDenied(path) && end->event->List_result
            == (audit::OpResultModel::Error { message: "permission denied"@ }),
        failure.kind == handlers::IoKind::Other ==> end->result->Err_0
            == wire::DaemonErrorModel::Io(failure.message@) && end->event->List_result
            == (audit::OpResultModel::Error { message: failure.message@ }),
        end->event->entries == 0,
{
}

/// A listing outside the workspace is answered with the path that is not allowed,
/// and recorded as denied.
pub proof fn law_outside_listing_says_so(
    path: Seq<char>,
    cfg: config::ConfigModel,
    resolution: Resolution,
)
    requires
        !cfg.policy.allows_path(path, resolution),
    ensures
        begin(path, cfg, resolution) == (ListStepModel::Done {
            event: audit::EventModel::List {
                path,
                entries: 0,
                result: audit::OpResultModel::Denied { reason: "path not in workspace"@ },
            },
            result: Err(wire::DaemonErrorModel::PathNotAllowed(path)),
        }),
{
}

/// What some entries say is what each of them holds, in their order.
pub proof fn law_entries_say_what_they_hold(found: Seq<FoundEntry>, i: int)
    requires
        0 <= i < found.len(),
    ensures
        found_model(found).len() == found.len(),
        found_model(found)[i].meta == found[i].meta,
        found[i].name is None <==> found_model(found)[i].name is None,
        found[i].name matches Some(name) ==> found_model(found)[i].name == Some(name@),
{
}

} // verus!
