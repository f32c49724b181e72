//! Where a path leads on a disk that holds symlinks.
//!
//! A path is followed name by name from the directory that it starts at. Where
//! something is there, the disk says what its canonical path is; below what is
//! not there yet, names are taken as they are, and `..` leads back out. So a file
//! that is still to be made has a place too, and that place is the one where it
//! would be made.
//!
//! The disk is asked by whoever drives this: as long as a place is wanted, it is
//! looked up and the answer is added.
use vstd::prelude::*;

use crate::pathname;
use crate::pathname::Style;
use crate::text;

verus! {

/// What looking a place up gave.
pub enum Lookup {
    /// Something is there, and this is its canonical path.
    Real(Vec<u8>),
    /// Nothing is there.
    Nothing,
    /// Neither could be found out, or something is there that leads nowhere.
    Unclear,
}

/// A place that was looked up.
pub struct Answer {
    pub asked: Vec<u8>,
    pub found: Lookup,
}

/// What was looked up on the disk, whose paths are written in a style.
pub struct Resolution {
    pub style: Style,
    pub answers: Vec<Answer>,
}

/// What a [`Lookup`] says.
#[verifier::ext_equal]
pub enum LookupModel {
    Real(Seq<u8>),
    Nothing,
    Unclear,
}

impl View for Lookup {
    type V = LookupModel;

    open spec fn view(&self) -> LookupModel {
        match self {
            Lookup::Real(canon) => LookupModel::Real(canon@),
            Lookup::Nothing => LookupModel::Nothing,
            Lookup::Unclear => LookupModel::Unclear,
        }
    }
}

/// The latest answer for a place, if there is one.
pub open spec fn answer_to(answers: Seq<Answer>, asked: Seq<u8>) -> Option<LookupModel>
    decreases answers.len(),
{
    if answers.len() == 0 {
        None
    } else if answers.last().asked@ == asked {
        Some(answers.last().found@)
    } else {
        answer_to(answers.drop_last(), asked)
    }
}

/// Where a path leads: to the canonical path of something that is there, and from
/// there on to names that are not there yet. `passed` holds the components of the
/// places that are not there yet either and that the path leads through and out
/// of again.
#[verifier::ext_equal]
pub struct PlaceModel {
    pub canon: Seq<u8>,
    pub rest: Seq<Seq<u8>>,
    pub passed: Seq<Seq<Seq<u8>>>,
}

impl PlaceModel {
    /// The components of the place.
    pub open spec fn components(self, style: Style) -> Seq<Seq<u8>> {
        pathname::components(style, self.canon) + self.rest
    }
}

/// What following a path comes to.
#[verifier::ext_equal]
pub enum WalkModel {
    /// It leads to a place.
    Leads(PlaceModel),
    /// This must be looked up first.
    Wants(Seq<u8>),
    /// It cannot be said where it leads.
    Lost,
}

/// The separator that a platform writes, as a byte.
pub open spec fn separator_byte(style: Style) -> u8 {
    match style {
        Style::Unix => pathname::SLASH,
        Style::Windows => pathname::BACKSLASH,
    }
}

/// `name` in the directory `base`.
pub open spec fn below(style: Style, base: Seq<u8>, name: Seq<u8>) -> Seq<u8> {
    if pathname::is_joined_bare(style, pathname::byte_units(base)) {
        base + name
    } else {
        base.push(separator_byte(style)) + name
    }
}

/// The length of what comes before the names of `p`.
pub open spec fn lead_len(style: Style, p: Seq<u8>) -> int {
    let u = pathname::byte_units(p);
    let n = pathname::prefix_len(style, u);
    if n < u.len() && pathname::is_separator(style, u[n]) {
        n + 1
    } else {
        n
    }
}

/// What comes before the last separator of `s`; nothing if it has none.
pub open spec fn until_separator(style: Style, s: Seq<u8>) -> Seq<u8>
    decreases s.len(),
{
    if s.len() == 0 {
        s
    } else if pathname::is_separator(style, s.last() as u32) {
        s.drop_last()
    } else {
        until_separator(style, s.drop_last())
    }
}

/// The directory that a canonical path lies in; the root directory lies in
/// itself.
pub open spec fn parent_of(style: Style, p: Seq<u8>) -> Seq<u8> {
    let n = lead_len(style, p);
    p.take(n) + until_separator(style, p.skip(n))
}

/// The directory that a path starts at: the root directory or the prefix that it
/// begins with, else the current one.
pub open spec fn start_of(style: Style, p: Seq<u8>) -> Seq<u8> {
    let n = pathname::prefix_len(style, pathname::byte_units(p));
    if pathname::is_rooted(style, pathname::byte_units(p)) {
        p.take(n).push(separator_byte(style))
    } else if n > 0 {
        p.take(n)
    } else {
        seq![pathname::DOT]
    }
}

/// Follows some names from a place.
pub open spec fn walk(
    style: Style,
    answers: Seq<Answer>,
    todo: Seq<Seq<u8>>,
    at: PlaceModel,
) -> WalkModel
    decreases todo.len(),
{
    if todo.len() == 0 {
        WalkModel::Leads(at)
    } else {
        let name = todo[0];
        let more = todo.skip(1);
        if name == seq![pathname::DOT] {
            walk(style, answers, more, at)
        } else if at.rest.len() > 0 {
            if name == pathname::climb() {
                walk(
                    style,
                    answers,
                    more,
                    PlaceModel {
                        rest: at.rest.drop_last(),
                        passed: at.passed.push(at.components(style)),
                        ..at
                    },
                )
            } else {
                walk(style, answers, more, PlaceModel { rest: at.rest.push(name), ..at })
            }
        } else if name == pathname::climb() {
            walk(style, answers, more, PlaceModel { canon: parent_of(style, at.canon), ..at })
        } else {
            match answer_to(answers, below(style, at.canon, name)) {
                None => WalkModel::Wants(below(style, at.canon, name)),
                Some(LookupModel::Real(canon)) => walk(
                    style,
                    answers,
                    more,
                    PlaceModel { canon, ..at },
                ),
                Some(LookupModel::Nothing) => walk(
                    style,
                    answers,
                    more,
                    PlaceModel { rest: seq![name], ..at },
                ),
                Some(LookupModel::Unclear) => WalkModel::Lost,
            }
        }
    }
}

impl Resolution {
    /// Where a path leads, as far as was looked up. The empty path leads
    /// nowhere.
    pub open spec fn leads(self, path: Seq<u8>) -> WalkModel {
        let start = start_of(self.style, path);
        if path.len() == 0 {
            WalkModel::Lost
        } else {
            match answer_to(self.answers@, start) {
                None => WalkModel::Wants(start),
                Some(LookupModel::Real(canon)) => walk(
                    self.style,
                    self.answers@,
                    pathname::names(self.style, path),
                    PlaceModel { canon, rest: Seq::empty(), passed: Seq::empty() },
                ),
                _ => WalkModel::Lost,
            }
        }
    }
}

// ── Following a path ────────────────────────────────────────────────

/// Where a path leads.
pub struct Place {
    pub canon: Vec<u8>,
    pub rest: Vec<Vec<u8>>,
    pub passed: Vec<Vec<Vec<u8>>>,
}

/// The components of some paths.
pub open spec fn all_views(v: Seq<Vec<Vec<u8>>>) -> Seq<Seq<Seq<u8>>> {
    v.map_values(|x: Vec<Vec<u8>>| pathname::views(x@))
}

impl View for Place {
    type V = PlaceModel;

    open spec fn view(&self) -> PlaceModel {
        PlaceModel {
            canon: self.canon@,
            rest: pathname::views(self.rest@),
            passed: all_views(self.passed@),
        }
    }
}

/// What following a path comes to.
pub enum Walk {
    Leads(Place),
    Wants(Vec<u8>),
    Lost,
}

impl View for Walk {
    type V = WalkModel;

    open spec fn view(&self) -> WalkModel {
        match self {
            Walk::Leads(place) => WalkModel::Leads(place@),
            Walk::Wants(asked) => WalkModel::Wants(asked@),
            Walk::Lost => WalkModel::Lost,
        }
    }
}

/// A copy of some bytes.
fn copy_of(p: &[u8], n: usize) -> (res: Vec<u8>)
    requires
        n <= p@.len(),
    ensures
        res@ == p@.take(n as int),
{
    let mut out: Vec<u8> = Vec::new();
    let mut i: usize = 0;
    while i < n
        invariant
            n <= p@.len(),
            i <= n,
            out@ == p@.take(i as int),
        decreases n - i,
    {
        out.push(p[i]);
        proof {
            assert(out@ =~= p@.take(i + 1));
        }
        i += 1;
    }
    out
}

/// A copy of some names.
fn copies_of(names: &Vec<Vec<u8>>) -> (res: Vec<Vec<u8>>)
    ensures
        pathname::views(res@) == pathname::views(names@),
{
    let n: usize = names.len();
    let mut out: Vec<Vec<u8>> = Vec::new();
    let mut i: usize = 0;
    while i < n
        invariant
            n == names@.len(),
            i <= n,
            pathname::views(out@) == pathname::views(names@.take(i as int)),
        decreases n - i,
    {
        let ghost before = pathname::views(out@);
        let name = names[i].as_slice();
        let copied = copy_of(name, name.len());
        proof {
            assert(name@.take(name@.len() as int) =~= name@);
        }
        out.push(copied);
        proof {
            assert(pathname::views(out@) =~= before.push(name@));
            assert(pathname::views(names@.take(i + 1)) =~= before.push(name@));
        }
        i += 1;
    }
    proof {
        assert(names@.take(n as int) =~= names@);
    }
    out
}

impl Place {
    /// The components of the place.
    pub fn components(&self, style: Style) -> (res: Vec<Vec<u8>>)
        ensures
            pathname::views(res@) == self@.components(style),
    {
        let mut out = pathname::components_of(style, self.canon.as_slice());
        let mut rest = copies_of(&self.rest);
        let ghost (a, b) = (out@, rest@);
        out.append(&mut rest);
        proof {
            assert(pathname::views(a + b) =~= pathname::views(a) + pathname::views(b));
        }
        out
    }
}

/// The separator that a platform writes, as a byte.
fn mark(style: Style) -> (res: u8)
    ensures
        res == separator_byte(style),
{
    match style {
        Style::Unix => pathname::SLASH,
        Style::Windows => pathname::BACKSLASH,
    }
}

/// `name` in the directory `base`.
fn entry_of(style: Style, base: &Vec<u8>, name: &Vec<u8>) -> (res: Vec<u8>)
    ensures
        res@ == below(style, base@, name@),
{
    let mut out = copy_of(base.as_slice(), base.len());
    proof {
        assert(base@.take(base@.len() as int) =~= base@);
    }
    if !pathname::joins_bare(style, base.as_slice()) {
        out.push(mark(style));
    }
    let mut rest = copy_of(name.as_slice(), name.len());
    proof {
        assert(name@.take(name@.len() as int) =~= name@);
    }
    out.append(&mut rest);
    out
}

/// The directory that a canonical path lies in.
fn parent(style: Style, p: &Vec<u8>) -> (res: Vec<u8>)
    ensures
        res@ == parent_of(style, p@),
{
    let (prefix, _) = pathname::front(style, p.as_slice());
    let n: usize = if prefix < p.len() && pathname::divides(style, p[prefix]) {
        prefix + 1
    } else {
        prefix
    };
    let ghost body = p@.skip(n as int);
    proof {
        assert(n == lead_len(style, p@));
        assert(body.take(body.len() as int) =~= body);
    }
    let mut to: usize = p.len();
    proof {
        assert(until_separator(style, body.take(0)) =~= body.take(0));
    }
    while to > n
        invariant_except_break
            until_separator(style, body) == until_separator(style, body.take(to - n)),
        invariant
            n <= to <= p@.len(),
            body == p@.skip(n as int),
        ensures
            n <= to <= p@.len(),
            until_separator(style, body) == body.take(to - n),
        decreases to,
    {
        let b = p[to - 1];
        proof {
            assert(body.take(to - n).last() == b);
            assert(body.take(to - n).drop_last() =~= body.take(to - n - 1));
        }
        to -= 1;
        if pathname::divides(style, b) {
            break;
        }
    }
    let out = copy_of(p.as_slice(), to);
    proof {
        assert(p@.take(to as int) =~= p@.take(n as int) + body.take(to - n));
    }
    out
}

/// The directory that a path starts at.
fn start(style: Style, p: &[u8]) -> (res: Vec<u8>)
    ensures
        res@ == start_of(style, p@),
{
    let (n, rooted) = pathname::front(style, p);
    let mut out = copy_of(p, n);
    if rooted {
        out.push(mark(style));
    } else if n == 0 {
        out.push(pathname::DOT);
        proof {
            assert(out@ =~= seq![pathname::DOT]);
        }
    }
    out
}

impl Resolution {
    /// A resolution for which nothing was looked up yet.
    pub fn new(style: Style) -> (res: Resolution)
        ensures
            res.style == style,
            res.answers@.len() == 0,
    {
        Resolution { style, answers: Vec::new() }
    }

    /// Adds what looking a place up gave.
    pub fn add_answer(&mut self, asked: Vec<u8>, found: Lookup)
        ensures
            final(self).style == old(self).style,
            final(self).answers@ == old(self).answers@.push(Answer { asked, found }),
    {
        self.answers.push(Answer { asked, found });
    }

    /// The index of the latest answer for a place, if there is one.
    fn find(&self, asked: &Vec<u8>) -> (res: Option<usize>)
        ensures
            match res {
                Some(i) => i < self.answers@.len() && answer_to(self.answers@, asked@) == Some(
                    self.answers@[i as int].found@,
                ),
                None => answer_to(self.answers@, asked@) is None,
            },
    {
        let mut n: usize = self.answers.len();
        proof {
            assert(self.answers@.take(n as int) =~= self.answers@);
        }
        while n > 0
            invariant
                n <= self.answers@.len(),
                answer_to(self.answers@, asked@) == answer_to(
                    self.answers@.take(n as int),
                    asked@,
                ),
            decreases n,
        {
            let ghost part = self.answers@.take(n as int);
            proof {
                assert(part.last() == self.answers@[n - 1]);
                assert(part.drop_last() =~= self.answers@.take(n - 1));
            }
            n -= 1;
            if text::same_bytes(self.answers[n].asked.as_slice(), asked.as_slice()) {
                return Some(n);
            }
        }
        None
    }

    /// Where a path leads, as far as was looked up.
    pub fn lead_to(&self, path: &[u8]) -> (res: Walk)
        ensures
            res@ == self.leads(path@),
    {
        if path.len() == 0 {
            return Walk::Lost;
        }
        let style = self.style;
        let first = start(style, path);
        let canon: Vec<u8> = match self.find(&first) {
            None => {
                return Walk::Wants(first);
            },
            Some(i) => match &self.answers[i].found {
                Lookup::Real(canon) => {
                    proof {
                        assert(canon@.take(canon@.len() as int) =~= canon@);
                    }
                    copy_of(canon.as_slice(), canon.len())
                },
                _ => {
                    return Walk::Lost;
                },
            },
        };
        let names = pathname::names_of(style, path);
        let ghost all = pathname::views(names@);
        let n: usize = names.len();
        let mut at = Place { canon, rest: Vec::new(), passed: Vec::new() };
        let mut i: usize = 0;
        proof {
            assert(all.skip(0) =~= all);
            assert(pathname::views(at.rest@) =~= Seq::<Seq<u8>>::empty());
            assert(all_views(at.passed@) =~= Seq::<Seq<Seq<u8>>>::empty());
        }
        while i < n
            invariant
                n == names@.len(),
                i <= n,
                all == pathname::views(names@),
                style == self.style,
                self.leads(path@) == walk(style, self.answers@, all.skip(i as int), at@),
            decreases n - i,
        {
            let name = &names[i];
            let ghost before = at@;
            let ghost todo = all.skip(i as int);
            proof {
                assert(todo[0] == name@);
                assert(todo.skip(1) =~= all.skip(i + 1));
                assert(before.rest.len() == at.rest@.len());
            }
            if pathname::is_dot(name.as_slice()) {
                // Nothing changes.
            } else if at.rest.len() > 0 {
                if pathname::is_climb(name.as_slice()) {
                    let passed = at.components(style);
                    at.passed.push(passed);
                    let _ = at.rest.pop();
                    proof {
                        assert(all_views(at.passed@) =~= before.passed.push(
                            before.components(style),
                        ));
                        assert(pathname::views(at.rest@) =~= before.rest.drop_last());
                    }
                } else {
                    proof {
                        assert(name@.take(name@.len() as int) =~= name@);
                    }
                    at.rest.push(copy_of(name.as_slice(), name.len()));
                    proof {
                        assert(pathname::views(at.rest@) =~= before.rest.push(name@));
                    }
                }
            } else if pathname::is_climb(name.as_slice()) {
                at.canon = parent(style, &at.canon);
            } else {
                let asked = entry_of(style, &at.canon, name);
                match self.find(&asked) {
                    None => {
                        return Walk::Wants(asked);
                    },
                    Some(k) => match &self.answers[k].found {
                        Lookup::Real(canon) => {
                            proof {
                                assert(canon@.take(canon@.len() as int) =~= canon@);
                            }
                            at.canon = copy_of(canon.as_slice(), canon.len());
                        },
                        Lookup::Nothing => {
                            proof {
                                assert(name@.take(name@.len() as int) =~= name@);
                            }
                            at.rest.push(copy_of(name.as_slice(), name.len()));
                            proof {
                                assert(pathname::views(at.rest@) =~= seq![name@]);
                            }
                        },
                        Lookup::Unclear => {
                            return Walk::Lost;
                        },
                    },
                }
            }
            i += 1;
        }
        proof {
            assert(all.skip(n as int) =~= Seq::<Seq<u8>>::empty());
        }
        Walk::Leads(at)
    }
}

// ── Laws ────────────────────────────────────────────────────────────

/// What follows a name that is wanted was not looked up yet.
proof fn lemma_walk_wants(
    style: Style,
    answers: Seq<Answer>,
    todo: Seq<Seq<u8>>,
    at: PlaceModel,
)
    ensures
        walk(style, answers, todo, at) matches WalkModel::Wants(asked) ==> answer_to(
            answers,
            asked,
        ) is None,
    decreases todo.len(),
{
    if todo.len() > 0 {
        let name = todo[0];
        let more = todo.skip(1);
        if name == seq![pathname::DOT] {
            lemma_walk_wants(style, answers, more, at);
        } else if at.rest.len() > 0 {
            if name == pathname::climb() {
                lemma_walk_wants(
                    style,
                    answers,
                    more,
                    PlaceModel {
                        rest: at.rest.drop_last(),
                        passed: at.passed.push(at.components(style)),
                        ..at
                    },
                );
            } else {
                lemma_walk_wants(style, answers, more, PlaceModel { rest: at.rest.push(name), ..at });
            }
        } else if name == pathname::climb() {
            lemma_walk_wants(style, answers, more, PlaceModel { canon: parent_of(style, at.canon), ..at });
        } else {
            match answer_to(answers, below(style, at.canon, name)) {
                Some(LookupModel::Real(canon)) => {
                    lemma_walk_wants(style, answers, more, PlaceModel { canon, ..at });
                },
                Some(LookupModel::Nothing) => {
                    lemma_walk_wants(style, answers, more, PlaceModel { rest: seq![name], ..at });
                },
                _ => {},
            }
        }
    }
}

/// No place is looked up twice: what is wanted was not answered yet.
pub proof fn law_wanted_is_new(resolution: Resolution, path: Seq<u8>)
    ensures
        resolution.leads(path) matches WalkModel::Wants(asked) ==> answer_to(
            resolution.answers@,
            asked,
        ) is None,
{
    match answer_to(resolution.answers@, start_of(resolution.style, path)) {
        Some(LookupModel::Real(canon)) => {
            lemma_walk_wants(
                resolution.style,
                resolution.answers@,
                pathname::names(resolution.style, path),
                PlaceModel { canon, rest: Seq::empty(), passed: Seq::empty() },
            );
        },
        _ => {},
    }
}

/// An answer to a new question changes no other answer.
proof fn lemma_answers_stay(answers: Seq<Answer>, new: Answer, asked: Seq<u8>)
    requires
        answer_to(answers, new.asked@) is None,
        answer_to(answers, asked) is Some,
    ensures
        answer_to(answers.push(new), asked) == answer_to(answers, asked),
{
    assert(answers.push(new).drop_last() =~= answers);
}

proof fn lemma_walk_stays(
    style: Style,
    answers: Seq<Answer>,
    new: Answer,
    todo: Seq<Seq<u8>>,
    at: PlaceModel,
)
    requires
        answer_to(answers, new.asked@) is None,
        !(walk(style, answers, todo, at) is Wants),
    ensures
        walk(style, answers.push(new), todo, at) == walk(style, answers, todo, at),
    decreases todo.len(),
{
    if todo.len() > 0 {
        let name = todo[0];
        let more = todo.skip(1);
        if name == seq![pathname::DOT] {
            lemma_walk_stays(style, answers, new, more, at);
        } else if at.rest.len() > 0 {
            if name == pathname::climb() {
                lemma_walk_stays(
                    style,
                    answers,
                    new,
                    more,
                    PlaceModel {
                        rest: at.rest.drop_last(),
                        passed: at.passed.push(at.components(style)),
                        ..at
                    },
                );
            } else {
                lemma_walk_stays(
                    style,
                    answers,
                    new,
                    more,
                    PlaceModel { rest: at.rest.push(name), ..at },
                );
            }
        } else if name == pathname::climb() {
            lemma_walk_stays(
                style,
                answers,
                new,
                more,
                PlaceModel { canon: parent_of(style, at.canon), ..at },
            );
        } else {
            let asked = below(style, at.canon, name);
            lemma_answers_stay(answers, new, asked);
            match answer_to(answers, asked) {
                Some(LookupModel::Real(canon)) => {
                    lemma_walk_stays(style, answers, new, more, PlaceModel { canon, ..at });
                },
                Some(LookupModel::Nothing) => {
                    lemma_walk_stays(
                        style,
                        answers,
                        new,
                        more,
                        PlaceModel { rest: seq![name], ..at },
                    );
                },
                _ => {},
            }
        }
    }
}

/// Once it is known where a path leads, looking up other places does not change
/// that.
pub proof fn law_places_are_final(resolution: Resolution, more: Resolution, new: Answer, path: Seq<u8>)
    requires
        !(resolution.leads(path) is Wants),
        answer_to(resolution.answers@, new.asked@) is None,
        more.style == resolution.style,
        more.answers@ == resolution.answers@.push(new),
    ensures
        more.leads(path) == resolution.leads(path),
{
    if path.len() > 0 {
        let start = start_of(resolution.style, path);
        lemma_answers_stay(resolution.answers@, new, start);
        match answer_to(resolution.answers@, start) {
            Some(LookupModel::Real(canon)) => {
                lemma_walk_stays(
                    resolution.style,
                    resolution.answers@,
                    new,
                    pathname::names(resolution.style, path),
                    PlaceModel { canon, rest: Seq::empty(), passed: Seq::empty() },
                );
            },
            _ => {},
        }
    }
}

/// Whether no name among some leads up.
pub open spec fn all_plain(names: Seq<Seq<u8>>) -> bool {
    !names.contains(pathname::climb())
}

proof fn lemma_walk_rest(
    style: Style,
    answers: Seq<Answer>,
    todo: Seq<Seq<u8>>,
    at: PlaceModel,
)
    requires
        all_plain(at.rest),
    ensures
        walk(style, answers, todo, at) matches WalkModel::Leads(place) ==> all_plain(place.rest),
    decreases todo.len(),
{
    if todo.len() > 0 {
        let name = todo[0];
        let more = todo.skip(1);
        if name == seq![pathname::DOT] {
            lemma_walk_rest(style, answers, more, at);
        } else if at.rest.len() > 0 {
            if name == pathname::climb() {
                let rest = at.rest.drop_last();
                assert(all_plain(rest)) by {
                    if rest.contains(pathname::climb()) {
                        let k = choose|k: int| 0 <= k < rest.len() && rest[k] == pathname::climb();
                        assert(at.rest[k] == pathname::climb());
                    }
                }
                lemma_walk_rest(
                    style,
                    answers,
                    more,
                    PlaceModel { rest, passed: at.passed.push(at.components(style)), ..at },
                );
            } else {
                let rest = at.rest.push(name);
                assert(all_plain(rest)) by {
                    if rest.contains(pathname::climb()) {
                        let k = choose|k: int| 0 <= k < rest.len() && rest[k] == pathname::climb();
                        assert(k < at.rest.len() ==> at.rest[k] == pathname::climb());
                    }
                }
                lemma_walk_rest(style, answers, more, PlaceModel { rest, ..at });
            }
        } else if name == pathname::climb() {
            lemma_walk_rest(style, answers, more, PlaceModel { canon: parent_of(style, at.canon), ..at });
        } else {
            match answer_to(answers, below(style, at.canon, name)) {
                Some(LookupModel::Real(canon)) => {
                    lemma_walk_rest(style, answers, more, PlaceModel { canon, ..at });
                },
                Some(LookupModel::Nothing) => {
                    assert(all_plain(seq![name]));
                    lemma_walk_rest(style, answers, more, PlaceModel { rest: seq![name], ..at });
                },
                _ => {},
            }
        }
    }
}

/// Where a path leads, nothing climbs any more: the names that are not there yet
/// lie below what is there.
pub proof fn law_places_do_not_climb(resolution: Resolution, path: Seq<u8>)
    ensures
        resolution.leads(path) matches WalkModel::Leads(place) ==> all_plain(place.rest),
{
    match answer_to(resolution.answers@, start_of(resolution.style, path)) {
        Some(LookupModel::Real(canon)) => {
            lemma_walk_rest(
                resolution.style,
                resolution.answers@,
                pathname::names(resolution.style, path),
                PlaceModel { canon, rest: Seq::empty(), passed: Seq::empty() },
            );
        },
        _ => {},
    }
}

/// A path leads on from where its front leads: following some names and then
/// others is following all of them.
pub proof fn law_walks_compose(
    style: Style,
    answers: Seq<Answer>,
    first: Seq<Seq<u8>>,
    further: Seq<Seq<u8>>,
    at: PlaceModel,
)
    ensures
        walk(style, answers, first + further, at) == match walk(style, answers, first, at) {
            WalkModel::Leads(place) => walk(style, answers, further, place),
            other => other,
        },
    decreases first.len(),
{
    let all = first + further;
    if first.len() == 0 {
        assert(all =~= further);
    } else {
        let name = first[0];
        let more = first.skip(1);
        assert(all[0] == name);
        assert(all.skip(1) =~= more + further);
        if name == seq![pathname::DOT] {
            law_walks_compose(style, answers, more, further, at);
        } else if at.rest.len() > 0 {
            if name == pathname::climb() {
                law_walks_compose(
                    style,
                    answers,
                    more,
                    further,
                    PlaceModel {
                        rest: at.rest.drop_last(),
                        passed: at.passed.push(at.components(style)),
                        ..at
                    },
                );
            } else {
                law_walks_compose(
                    style,
                    answers,
                    more,
                    further,
                    PlaceModel { rest: at.rest.push(name), ..at },
                );
            }
        } else if name == pathname::climb() {
            law_walks_compose(
                style,
                answers,
                more,
                further,
                PlaceModel { canon: parent_of(style, at.canon), ..at },
            );
        } else {
            match answer_to(answers, below(style, at.canon, name)) {
                Some(LookupModel::Real(canon)) => {
                    law_walks_compose(style, answers, more, further, PlaceModel { canon, ..at });
                },
                Some(LookupModel::Nothing) => {
                    law_walks_compose(
                        style,
                        answers,
                        more,
                        further,
                        PlaceModel { rest: seq![name], ..at },
                    );
                },
                _ => {},
            }
        }
    }
}

/// Whether nothing that was looked up is a symlink: what is there has the
/// canonical path that was asked for.
pub open spec fn is_linkless(answers: Seq<Answer>) -> bool {
    forall|asked: Seq<u8>|
        #[trigger] answer_to(answers, asked) matches Some(LookupModel::Real(canon)) ==> canon
            == asked
}

proof fn lemma_components_below(base: Seq<u8>, name: Seq<u8>)
    requires
        base.len() > 0,
        name.len() > 0,
        pathname::is_unseparated(Style::Unix, name),
        name != seq![pathname::DOT],
    ensures
        pathname::components(Style::Unix, below(Style::Unix, base, name)) == pathname::components(
            Style::Unix,
            base,
        ).push(name),
        below(Style::Unix, base, name).len() > 0,
{
    assert(pathname::byte_units(base).last() == base.last() as u32);
    if base.last() == pathname::SLASH {
        pathname::lemma_name_behind(base, name);
    } else {
        pathname::lemma_separator_behind(base);
        pathname::lemma_name_behind(base.push(pathname::SLASH), name);
    }
}

proof fn lemma_linkless_walk(answers: Seq<Answer>, todo: Seq<Seq<u8>>, at: PlaceModel)
    requires
        is_linkless(answers),
        at.canon.len() > 0,
        forall|k: int|
            #![trigger todo[k]]
            0 <= k < todo.len() ==> {
                &&& todo[k].len() > 0
                &&& pathname::is_unseparated(Style::Unix, todo[k])
                &&& todo[k] != seq![pathname::DOT]
                &&& todo[k] != pathname::climb()
            },
    ensures
        walk(Style::Unix, answers, todo, at) matches WalkModel::Leads(place) ==> place.components(
            Style::Unix,
        ) == at.components(Style::Unix) + todo && place.passed == at.passed,
    decreases todo.len(),
{
    let u = Style::Unix;
    if todo.len() == 0 {
        assert(at.components(u) + todo =~= at.components(u));
    } else {
        let name = todo[0];
        let more = todo.skip(1);
        assert forall|k: int|
            #![trigger more[k]]
            0 <= k < more.len() implies {
                &&& more[k].len() > 0
                &&& pathname::is_unseparated(u, more[k])
                &&& more[k] != seq![pathname::DOT]
                &&& more[k] != pathname::climb()
            } by {
            assert(more[k] == todo[k + 1]);
        }
        let longer = at.components(u).push(name);
        assert(longer + more =~= at.components(u) + todo);
        if at.rest.len() > 0 {
            let next = PlaceModel { rest: at.rest.push(name), ..at };
            assert(next.components(u) =~= longer);
            lemma_linkless_walk(answers, more, next);
        } else {
            let asked = below(u, at.canon, name);
            lemma_components_below(at.canon, name);
            assert(at.components(u) =~= pathname::components(u, at.canon));
            match answer_to(answers, asked) {
                Some(LookupModel::Real(canon)) => {
                    let next = PlaceModel { canon, ..at };
                    assert(next.components(u) =~= longer);
                    lemma_linkless_walk(answers, more, next);
                },
                Some(LookupModel::Nothing) => {
                    let next = PlaceModel { rest: seq![name], ..at };
                    assert(next.components(u) =~= longer);
                    lemma_linkless_walk(answers, more, next);
                },
                _ => {},
            }
        }
    }
}

/// Where there are no symlinks, a path leads where it says: on Unix, an absolute
/// path that does not climb leads to the place of its own components, whether or
/// not anything is there.
pub proof fn law_plain_paths_lead_to_themselves(resolution: Resolution, path: Seq<u8>)
    requires
        resolution.style == Style::Unix,
        is_linkless(resolution.answers@),
        path.len() > 0,
        path[0] == pathname::SLASH,
        all_plain(pathname::names(Style::Unix, path)),
        resolution.leads(path) is Leads,
    ensures
        resolution.leads(path)->Leads_0.components(Style::Unix) == pathname::components(
            Style::Unix,
            path,
        ),
        resolution.leads(path)->Leads_0.passed.len() == 0,
{
    let u = Style::Unix;
    let todo = pathname::names(u, path);
    let start = start_of(u, path);
    assert(pathname::byte_units(path)[0] == 0x2f);
    assert(start =~= seq![pathname::SLASH]);
    pathname::lemma_names(u, path);
    assert forall|k: int|
        #![trigger todo[k]]
        0 <= k < todo.len() implies {
            &&& todo[k].len() > 0
            &&& pathname::is_unseparated(u, todo[k])
            &&& todo[k] != seq![pathname::DOT]
            &&& todo[k] != pathname::climb()
        } by {
        assert(todo[k] == pathname::names(u, path)[k]);
        assert(todo.contains(todo[k]));
    }
    let at = PlaceModel { canon: start, rest: Seq::empty(), passed: Seq::empty() };
    assert(answer_to(resolution.answers@, start) == Some(LookupModel::Real(start)));
    lemma_linkless_walk(resolution.answers@, todo, at);
    pathname::lemma_root_components();
    assert(at.components(u) =~= pathname::lead(u, path));
}

// ── Laws of a single step ───────────────────────────────────────────

/// The latest answer for a place is the one that counts, and answers for other
/// places do not matter to it.
pub proof fn law_latest_answer_counts(answers: Seq<Answer>, new: Answer, asked: Seq<u8>)
    ensures
        answer_to(answers.push(new), new.asked@) == Some(new.found@),
        asked != new.asked@ ==> answer_to(answers.push(new), asked) == answer_to(answers, asked),
        answer_to(Seq::<Answer>::empty(), asked) is None,
{
    assert(answers.push(new).drop_last() =~= answers);
}

/// On Unix, a path is followed from the root directory if it begins with a
/// separator, and from the current directory if not; that is the first thing to be
/// looked up.
pub proof fn law_paths_start_somewhere(resolution: Resolution, path: Seq<u8>)
    requires
        resolution.style == Style::Unix,
        resolution.answers@.len() == 0,
        path.len() > 0,
    ensures
        path[0] == pathname::SLASH ==> resolution.leads(path) == WalkModel::Wants(
            seq![pathname::SLASH],
        ),
        path[0] != pathname::SLASH ==> resolution.leads(path) == WalkModel::Wants(
            seq![pathname::DOT],
        ),
{
    assert(pathname::byte_units(path)[0] == path[0] as u32);
    assert(path.take(0).push(pathname::SLASH) =~= seq![pathname::SLASH]);
}

/// On Windows, a path on a drive is followed from the root directory of the drive
/// if a separator comes behind the drive, and from the drive's current directory
/// if not.
pub proof fn law_paths_start_on_their_drive(resolution: Resolution, letter: u8, rest: Seq<u8>)
    requires
        resolution.style == Style::Windows,
        resolution.answers@.len() == 0,
        0x41 <= letter <= 0x5a || 0x61 <= letter <= 0x7a,
    ensures
        ({
            let path = seq![letter, pathname::COLON] + rest;
            &&& rest.len() > 0 && (rest[0] == pathname::SLASH || rest[0] == pathname::BACKSLASH)
                ==> resolution.leads(path) == WalkModel::Wants(
                seq![letter, pathname::COLON, pathname::BACKSLASH],
            )
            &&& rest.len() == 0 || (rest[0] != pathname::SLASH && rest[0] != pathname::BACKSLASH)
                ==> resolution.leads(path) == WalkModel::Wants(seq![letter, pathname::COLON])
        }),
{
    let path = seq![letter, pathname::COLON] + rest;
    let u = pathname::byte_units(path);
    assert(u[0] == letter as u32 && u[1] == 0x3a);
    assert(path.take(2) =~= seq![letter, pathname::COLON]);
    if rest.len() > 0 {
        assert(u[2] == rest[0] as u32);
    }
    assert(path.take(2).push(pathname::BACKSLASH) =~= seq![
        letter,
        pathname::COLON,
        pathname::BACKSLASH,
    ]);
}

/// The start of a path is itself followed: where it is there, the names of the
/// path are followed from its canonical path; where it is not, the path leads
/// nowhere.
pub proof fn law_start_is_followed(resolution: Resolution, path: Seq<u8>)
    requires
        path.len() > 0,
    ensures
        match answer_to(resolution.answers@, start_of(resolution.style, path)) {
            None => resolution.leads(path) == WalkModel::Wants(start_of(resolution.style, path)),
            Some(LookupModel::Real(canon)) => resolution.leads(path) == walk(
                resolution.style,
                resolution.answers@,
                pathname::names(resolution.style, path),
                PlaceModel { canon, rest: Seq::empty(), passed: Seq::empty() },
            ),
            Some(_) => resolution.leads(path) is Lost,
        },
        resolution.leads(Seq::empty()) is Lost,
{
}

/// Whether a name is one that may be looked up: neither `.` nor `..`.
pub open spec fn is_followed(name: Seq<u8>) -> bool {
    name != seq![pathname::DOT] && name != seq![pathname::DOT, pathname::DOT]
}

/// A name that is looked up leads to the canonical path of what is there; to a
/// place that is not there yet if nothing is there; and nowhere if that is
/// unclear.
pub proof fn law_names_are_looked_up(
    style: Style,
    answers: Seq<Answer>,
    name: Seq<u8>,
    at: PlaceModel,
)
    requires
        is_followed(name),
        at.rest.len() == 0,
    ensures
        match answer_to(answers, below(style, at.canon, name)) {
            None => walk(style, answers, seq![name], at) == WalkModel::Wants(
                below(style, at.canon, name),
            ),
            Some(LookupModel::Real(canon)) => walk(style, answers, seq![name], at)
                == WalkModel::Leads(PlaceModel { canon, rest: at.rest, passed: at.passed }),
            Some(LookupModel::Nothing) => walk(style, answers, seq![name], at)
                == WalkModel::Leads(
                PlaceModel { canon: at.canon, rest: seq![name], passed: at.passed },
            ),
            Some(LookupModel::Unclear) => walk(style, answers, seq![name], at) is Lost,
        },
{
    reveal_with_fuel(walk, 2);
    assert(seq![name].skip(1) =~= Seq::<Seq<u8>>::empty());
}

/// Below what is not there yet nothing is looked up: a name is put behind, `..`
/// takes the last one off again and remembers the place that it leads out of.
pub proof fn law_missing_names_are_taken_as_they_are(
    style: Style,
    answers: Seq<Answer>,
    name: Seq<u8>,
    at: PlaceModel,
)
    requires
        is_followed(name),
        at.rest.len() > 0,
    ensures
        walk(style, answers, seq![name], at) == WalkModel::Leads(
            PlaceModel { canon: at.canon, rest: at.rest.push(name), passed: at.passed },
        ),
        walk(style, answers, seq![seq![pathname::DOT, pathname::DOT]], at) == WalkModel::Leads(
            PlaceModel {
                canon: at.canon,
                rest: at.rest.drop_last(),
                passed: at.passed.push(pathname::components(style, at.canon) + at.rest),
            },
        ),
{
    reveal_with_fuel(walk, 2);
    assert(seq![name].skip(1) =~= Seq::<Seq<u8>>::empty());
    assert(seq![pathname::climb()].skip(1) =~= Seq::<Seq<u8>>::empty());
    assert(pathname::climb().len() == 2 && seq![pathname::DOT].len() == 1);
}

/// `.` leads nowhere else.
pub proof fn law_dot_stays(style: Style, answers: Seq<Answer>, at: PlaceModel)
    ensures
        walk(style, answers, seq![seq![pathname::DOT]], at) == WalkModel::Leads(at),
        walk(style, answers, Seq::empty(), at) == WalkModel::Leads(at),
{
    reveal_with_fuel(walk, 2);
    assert(seq![seq![pathname::DOT]].skip(1) =~= Seq::<Seq<u8>>::empty());
}

/// `..` leads from what is there to the directory that holds it, without a look
/// at the disk.
pub proof fn law_climbing_leads_to_the_parent(
    style: Style,
    answers: Seq<Answer>,
    at: PlaceModel,
)
    requires
        at.rest.len() == 0,
    ensures
        walk(style, answers, seq![seq![pathname::DOT, pathname::DOT]], at) == WalkModel::Leads(
            PlaceModel {
                canon: parent_of(style, at.canon),
                rest: at.rest,
                passed: at.passed,
            },
        ),
{
    reveal_with_fuel(walk, 2);
    assert(seq![pathname::climb()].skip(1) =~= Seq::<Seq<u8>>::empty());
    assert(pathname::climb().len() == 2 && seq![pathname::DOT].len() == 1);
}

proof fn lemma_until_separator(style: Style, s: Seq<u8>, name: Seq<u8>)
    requires
        pathname::is_unseparated(style, name),
        s.len() > 0 ==> pathname::is_separator(style, s.last() as u32),
    ensures
        until_separator(style, s + name) == if s.len() > 0 {
            s.drop_last()
        } else {
            Seq::empty()
        },
    decreases name.len(),
{
    if name.len() == 0 {
        assert(s + name =~= s);
        if s.len() == 0 {
            assert(s =~= Seq::<u8>::empty());
        }
    } else {
        let front = name.drop_last();
        assert((s + name).last() == name[name.len() - 1]);
        assert((s + name).drop_last() =~= s + front);
        assert forall|i: int| 0 <= i < front.len() implies !pathname::is_separator(
            style,
            #[trigger] front[i] as u32,
        ) by {
            assert(front[i] == name[i]);
        }
        lemma_until_separator(style, s, front);
    }
}

/// On Unix, a name that was put below a directory is taken off again by climbing:
/// the parent of a path is the path without its last name, and the root directory
/// is its own parent.
pub proof fn law_parent_undoes_a_name(base: Seq<u8>, name: Seq<u8>)
    requires
        base.len() > 0,
        base[0] == pathname::SLASH,
        base.last() != pathname::SLASH || base.len() == 1,
        pathname::is_unseparated(Style::Unix, name),
    ensures
        parent_of(Style::Unix, below(Style::Unix, base, name)) == base,
        parent_of(Style::Unix, seq![pathname::SLASH]) == seq![pathname::SLASH],
        below(Style::Unix, base, name) == if base.len() == 1 {
            base + name
        } else {
            base.push(pathname::SLASH) + name
        },
{
    let u = Style::Unix;
    let p = below(u, base, name);
    assert(pathname::byte_units(base).last() == base.last() as u32);
    assert(pathname::byte_units(p)[0] == base[0] as u32);
    assert(lead_len(u, p) == 1);
    let none = Seq::<u8>::empty();
    if base.len() == 1 {
        assert(base =~= seq![pathname::SLASH]);
        assert(p =~= base + name);
        assert(p.skip(1) =~= none + name);
        lemma_until_separator(u, none, name);
        assert(p.take(1) + none =~= base);
    } else {
        let s = base.skip(1).push(pathname::SLASH);
        assert(p =~= base.push(pathname::SLASH) + name);
        assert(p.skip(1) =~= s + name);
        lemma_until_separator(u, s, name);
        assert(s.drop_last() =~= base.skip(1));
        assert(p.take(1) + base.skip(1) =~= base);
    }
    let root = seq![pathname::SLASH];
    assert(pathname::byte_units(root)[0] == 0x2f);
    assert(lead_len(u, root) == 1);
    assert(root.skip(1) =~= none);
    assert(root.take(1) + none =~= root);
}

/// On Unix, what lies below a directory has its components and one name more.
pub proof fn law_below_adds_a_name(base: Seq<u8>, name: Seq<u8>)
    requires
        base.len() > 0,
        name.len() > 0,
        pathname::is_unseparated(Style::Unix, name),
        name != seq![pathname::DOT],
    ensures
        pathname::components(Style::Unix, below(Style::Unix, base, name)) == pathname::components(
            Style::Unix,
            base,
        ).push(name),
{
    lemma_components_below(base, name);
}

/// On Windows, a name is put below a directory with a backslash, and right behind
/// a separator.
pub proof fn law_below_on_windows(base: Seq<u8>, name: Seq<u8>)
    requires
        base.len() > 2,
    ensures
        base.last() == pathname::SLASH || base.last() == pathname::BACKSLASH ==> below(
            Style::Windows,
            base,
            name,
        ) == base + name,
        base.last() != pathname::SLASH && base.last() != pathname::BACKSLASH ==> below(
            Style::Windows,
            base,
            name,
        ) == base.push(pathname::BACKSLASH) + name,
{
    assert(pathname::byte_units(base).last() == base.last() as u32);
}

/// Behind a prefix, as on Windows, a name that was put below a directory is one
/// component more, and is taken off again by climbing.
pub proof fn law_parent_undoes_a_name_behind_a_prefix(style: Style, base: Seq<u8>, name: Seq<u8>)
    requires
        0 < pathname::prefix_len(style, pathname::byte_units(base)) < base.len(),
        pathname::is_separator(
            style,
            pathname::byte_units(base)[pathname::prefix_len(style, pathname::byte_units(base))],
        ),
        !pathname::is_separator(style, base.last() as u32) || base.len()
            == pathname::prefix_len(style, pathname::byte_units(base)) + 1,
        base.len() > 2,
        name.len() > 0,
        pathname::is_unseparated(style, name),
        name != seq![pathname::DOT],
    ensures
        pathname::components(style, below(style, base, name)) == pathname::components(
            style,
            base,
        ).push(name),
        parent_of(style, below(style, base, name)) == base,
{
    let u = pathname::byte_units(base);
    let n = pathname::prefix_len(style, u);
    let m = separator_byte(style);
    assert(u.last() == base.last() as u32);
    let none = Seq::<u8>::empty();
    if pathname::is_separator(style, base.last() as u32) {
        let p = base + name;
        pathname::law_name_behind_a_prefix(style, base, name);
        assert(below(style, base, name) == p);
        assert(pathname::byte_units(p)[n] == u[n]);
        assert(lead_len(style, p) == n + 1);
        assert(p.skip(n + 1) =~= none + name);
        lemma_until_separator(style, none, name);
        assert(p.take(n + 1) + none =~= base);
    } else {
        let q = base.push(m);
        let p = q + name;
        assert(pathname::byte_units(q) =~= u + seq![m as u32]);
        pathname::lemma_separator_behind_a_prefix(style, base, m);
        pathname::law_name_behind_a_prefix(style, q, name);
        assert(below(style, base, name) == p);
        assert(pathname::byte_units(p)[n] == u[n]);
        assert(lead_len(style, p) == n + 1);
        let s = base.skip(n + 1).push(m);
        assert(p.skip(n + 1) =~= s + name);
        lemma_until_separator(style, s, name);
        assert(s.drop_last() =~= base.skip(n + 1));
        assert(p.take(n + 1) + base.skip(n + 1) =~= base);
    }
}

/// A place has the components of what is there, and then the names that are not
/// there yet.
pub proof fn law_places_say_what_they_hold(style: Style, place: Place)
    ensures
        place@.canon == place.canon@,
        place@.rest == pathname::views(place.rest@),
        place@.components(style) == pathname::components(style, place.canon@) + pathname::views(
            place.rest@,
        ),
        place@.passed.len() == place.passed@.len(),
        forall|i: int|
            0 <= i < place.passed@.len() ==> #[trigger] place@.passed[i] == pathname::views(
                place.passed@[i]@,
            ),
{
}

/// What an answer says is what it holds.
pub proof fn law_answers_say_what_they_hold(canon: Vec<u8>)
    ensures
        Lookup::Real(canon)@ == LookupModel::Real(canon@),
        Lookup::Nothing@ is Nothing,
        Lookup::Unclear@ is Unclear,
{
}

/// On Windows, a path with any other prefix than a drive, such as a share, is
/// followed from the root directory behind it.
pub proof fn law_paths_start_on_their_share(resolution: Resolution, path: Seq<u8>)
    requires
        resolution.style == Style::Windows,
        resolution.answers@.len() == 0,
        path.len() > 0,
        pathname::prefix_len(Style::Windows, pathname::byte_units(path)) > 0,
        path.len() < 2 || path[1] != pathname::COLON,
    ensures
        resolution.leads(path) == WalkModel::Wants(
            path.take(pathname::prefix_len(Style::Windows, pathname::byte_units(path))).push(
                pathname::BACKSLASH,
            ),
        ),
{
    let u = pathname::byte_units(path);
    if path.len() >= 2 {
        assert(u[1] == path[1] as u32);
    }
}

/// On Windows, a path without a prefix is followed from the root directory of the
/// current drive if it begins with a separator, and from the current directory if
/// not.
pub proof fn law_paths_without_a_prefix(resolution: Resolution, path: Seq<u8>)
    requires
        resolution.style == Style::Windows,
        resolution.answers@.len() == 0,
        path.len() > 0,
        pathname::prefix_len(Style::Windows, pathname::byte_units(path)) == 0,
    ensures
        path[0] == pathname::SLASH || path[0] == pathname::BACKSLASH ==> resolution.leads(path)
            == WalkModel::Wants(seq![pathname::BACKSLASH]),
        path[0] != pathname::SLASH && path[0] != pathname::BACKSLASH ==> resolution.leads(path)
            == WalkModel::Wants(seq![pathname::DOT]),
{
    assert(pathname::byte_units(path)[0] == path[0] as u32);
    assert(path.take(0).push(pathname::BACKSLASH) =~= seq![pathname::BACKSLASH]);
}

} // verus!
