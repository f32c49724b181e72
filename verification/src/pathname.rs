//! Path names: their components, and the questions that policy asks of them.
//!
//! A path is a sequence of bytes in which `/` separates components. Repeated
//! separators, a trailing separator and `.` components other than a leading
//! one carry no meaning; `..` is a component like any other.
//!
//! On Windows `\` separates components too, and a prefix may come first: a drive
//! such as `C:`, a share such as `\\server\share`, or a device such as
//! `\\.\COM1` or `\\?\C:`. A prefix is one component, in which the letter of a
//! drive counts as upper case and every separator as `\`; behind any but a bare
//! drive comes the root directory. Names are separated alike behind every prefix.
use vstd::prelude::*;

use crate::text;

verus! {

/// The separator `/`.
pub const SLASH: u8 = 0x2f;

/// The separator `\` of Windows.
pub const BACKSLASH: u8 = 0x5c;

/// The byte `.`.
pub const DOT: u8 = 0x2e;

/// The byte `:`.
pub const COLON: u8 = 0x3a;

/// How a platform writes paths.
#[derive(Debug, Clone, Copy, PartialEq, Eq, Structural)]
pub enum Style {
    Unix,
    Windows,
}

// ── Prefixes ────────────────────────────────────────────────────────

/// The bytes of a path, as numbers.
pub open spec fn byte_units(p: Seq<u8>) -> Seq<u32> {
    p.map_values(|b: u8| b as u32)
}

/// The characters of a path, as numbers.
pub open spec fn text_units(s: Seq<char>) -> Seq<u32> {
    s.map_values(|c: char| c as u32)
}

/// Whether a byte or character separates components.
pub open spec fn is_separator(style: Style, unit: u32) -> bool {
    unit == 0x2f || (style == Style::Windows && unit == 0x5c)
}

/// Whether a byte or character is a letter from A to Z, upper or lower case.
pub open spec fn is_letter(unit: u32) -> bool {
    0x41 <= unit <= 0x5a || 0x61 <= unit <= 0x7a
}

/// Where the piece that begins at `from` ends: at the next separator, or at the
/// end of the path.
pub open spec fn piece_end(style: Style, u: Seq<u32>, from: int) -> int
    decreases u.len() - from,
{
    if from < u.len() && !is_separator(style, u[from]) {
        piece_end(style, u, from + 1)
    } else {
        from
    }
}

/// Whether a path begins with a drive, as `C:\x` and `C:` do.
pub open spec fn has_drive(style: Style, u: Seq<u32>) -> bool {
    style == Style::Windows && u.len() >= 2 && is_letter(u[0]) && u[1] == 0x3a
}

/// The length of the share or device that a path begins with: two separators
/// and two pieces, or four behind `\\?\UNC`; none of the first two is empty.
pub open spec fn share_len(style: Style, u: Seq<u32>) -> int {
    let a = piece_end(style, u, 2);
    let b = piece_end(style, u, a + 1);
    if !(style == Style::Windows && u.len() >= 2 && is_separator(style, u[0]) && is_separator(
        style,
        u[1],
    )) {
        0
    } else if a == 2 || a >= u.len() || b == a + 1 {
        0
    } else if u.subrange(2, a) == seq![0x3fu32] && u.subrange(a + 1, b) == seq![
        0x55u32,
        0x4eu32,
        0x43u32,
    ] && b < u.len() {
        let c = piece_end(style, u, b + 1);
        if c < u.len() {
            piece_end(style, u, c + 1)
        } else {
            c
        }
    } else {
        b
    }
}

/// The length of a path's prefix.
pub open spec fn prefix_len(style: Style, u: Seq<u32>) -> int {
    if has_drive(style, u) {
        2
    } else {
        share_len(style, u)
    }
}

/// Whether a path is absolute: the root directory comes first, or behind its
/// prefix.
pub open spec fn is_rooted(style: Style, u: Seq<u32>) -> bool {
    let n = prefix_len(style, u);
    (n > 0 && !has_drive(style, u)) || (n < u.len() && is_separator(style, u[n]))
}

/// Where the piece that begins at `from` ends.
fn end_of_piece(style: Style, u: &Vec<u32>, from: usize) -> (res: usize)
    requires
        from <= u@.len(),
    ensures
        res == piece_end(style, u@, from as int),
        from <= res <= u@.len(),
{
    let n: usize = u.len();
    let mut i: usize = from;
    while i < n && !separates(style, u[i])
        invariant
            n == u@.len(),
            from <= i <= n,
            piece_end(style, u@, from as int) == piece_end(style, u@, i as int),
        decreases n - i,
    {
        i += 1;
    }
    i
}

/// Whether a byte or character separates components.
fn separates(style: Style, unit: u32) -> (res: bool)
    ensures
        res == is_separator(style, unit),
{
    unit == 0x2f || (style == Style::Windows && unit == 0x5c)
}

/// Whether a path begins with a drive.
fn with_drive(style: Style, u: &Vec<u32>) -> (res: bool)
    ensures
        res == has_drive(style, u@),
{
    style == Style::Windows && u.len() >= 2 && u[1] == 0x3a && ((0x41 <= u[0] && u[0] <= 0x5a) || (
    0x61 <= u[0] && u[0] <= 0x7a))
}

/// The length of a path's prefix.
fn prefix_of(style: Style, u: &Vec<u32>) -> (res: usize)
    ensures
        res == prefix_len(style, u@),
        res <= u@.len(),
{
    if with_drive(style, u) {
        return 2;
    }
    let n: usize = u.len();
    if !(style == Style::Windows && n >= 2 && separates(style, u[0]) && separates(style, u[1])) {
        return 0;
    }
    let a: usize = end_of_piece(style, u, 2);
    if a == 2 || a >= n {
        return 0;
    }
    let b: usize = end_of_piece(style, u, a + 1);
    if b == a + 1 {
        return 0;
    }
    let verbatim = a == 3 && u[2] == 0x3f;
    let unc = b - a == 4 && u[a + 1] == 0x55 && u[a + 2] == 0x4e && u[a + 3] == 0x43;
    proof {
        let first = u@.subrange(2, a as int);
        let second = u@.subrange(a + 1, b as int);
        let q = seq![0x3fu32];
        let n3 = seq![0x55u32, 0x4eu32, 0x43u32];
        assert(verbatim == (first == q)) by {
            if verbatim {
                assert(first =~= q);
            }
            if first == q {
                assert(first.len() == 1);
                assert(first[0] == u@[2]);
            }
        }
        assert(unc == (second == n3)) by {
            if unc {
                assert(second =~= n3);
            }
            if second == n3 {
                assert(second.len() == 3);
                assert(second[0] == u@[a + 1] && second[1] == u@[a + 2] && second[2] == u@[a + 3]);
            }
        }
        assert(prefix_len(style, u@) == share_len(style, u@));
    }
    if verbatim && unc && b < n {
        let c: usize = end_of_piece(style, u, b + 1);
        if c < n {
            end_of_piece(style, u, c + 1)
        } else {
            c
        }
    } else {
        b
    }
}

/// The bytes of a path, as numbers.
fn units_of(p: &[u8]) -> (res: Vec<u32>)
    ensures
        res@ == byte_units(p@),
{
    let n: usize = p.len();
    let mut out: Vec<u32> = Vec::new();
    let mut i: usize = 0;
    while i < n
        invariant
            n == p@.len(),
            i <= n,
            out@ == byte_units(p@.take(i as int)),
        decreases n - i,
    {
        out.push(p[i] as u32);
        proof {
            assert(out@ =~= byte_units(p@.take(i + 1)));
        }
        i += 1;
    }
    proof {
        assert(p@.take(n as int) =~= p@);
    }
    out
}

/// The characters of a path, as numbers.
fn units_of_text(cs: &Vec<char>) -> (res: Vec<u32>)
    ensures
        res@ == text_units(cs@),
{
    let n: usize = cs.len();
    let mut out: Vec<u32> = Vec::new();
    let mut i: usize = 0;
    while i < n
        invariant
            n == cs@.len(),
            i <= n,
            out@ == text_units(cs@.take(i as int)),
        decreases n - i,
    {
        out.push(cs[i] as u32);
        proof {
            assert(out@ =~= text_units(cs@.take(i + 1)));
        }
        i += 1;
    }
    proof {
        assert(cs@.take(n as int) =~= cs@);
    }
    out
}

// ── Components ──────────────────────────────────────────────────────

/// The path behind its prefix.
pub open spec fn behind_prefix(style: Style, p: Seq<u8>) -> Seq<u8> {
    p.skip(prefix_len(style, byte_units(p)))
}

/// A byte of a prefix as it counts: a slash as a backslash, and a letter before a
/// colon in upper case.
pub open spec fn prefix_byte(p: Seq<u8>, i: int) -> u8 {
    if p[i] == SLASH {
        BACKSLASH
    } else if 0x61 <= p[i] <= 0x7a && i + 1 < p.len() && p[i + 1] == COLON {
        (p[i] - 0x20) as u8
    } else {
        p[i]
    }
}

/// A prefix as a component.
pub open spec fn prefix_component(prefix: Seq<u8>) -> Seq<u8> {
    Seq::new(prefix.len(), |i: int| prefix_byte(prefix, i))
}

/// The pieces of `p` between its separators, empty ones included.
pub open spec fn pieces(style: Style, p: Seq<u8>) -> Seq<Seq<u8>>
    decreases p.len(),
{
    if p.len() == 0 {
        seq![Seq::empty()]
    } else {
        let before = pieces(style, p.drop_last());
        if is_separator(style, p.last() as u32) {
            before.push(Seq::empty())
        } else {
            before.drop_last().push(before.last().push(p.last()))
        }
    }
}

/// Whether the piece at index `i` is a component: it is not empty, and `.`
/// counts only at the very start of the path.
pub open spec fn is_component(i: int, piece: Seq<u8>) -> bool {
    piece.len() > 0 && (i == 0 || piece != seq![DOT])
}

/// The components among some pieces.
pub open spec fn kept(ps: Seq<Seq<u8>>) -> Seq<Seq<u8>>
    decreases ps.len(),
{
    if ps.len() == 0 {
        Seq::empty()
    } else {
        let before = kept(ps.drop_last());
        if is_component(ps.len() - 1, ps.last()) {
            before.push(ps.last())
        } else {
            before
        }
    }
}

/// The root directory as a component.
pub open spec fn root_component() -> Seq<u8> {
    seq![SLASH]
}

/// The component `..`.
pub open spec fn climb() -> Seq<u8> {
    seq![DOT, DOT]
}

/// What comes before the names of `p`: its prefix, and the root directory if `p`
/// is absolute.
pub open spec fn lead(style: Style, p: Seq<u8>) -> Seq<Seq<u8>> {
    let n = prefix_len(style, byte_units(p));
    let prefix: Seq<Seq<u8>> = if n > 0 {
        seq![prefix_component(p.take(n))]
    } else {
        Seq::empty()
    };
    if is_rooted(style, byte_units(p)) {
        prefix.push(root_component())
    } else {
        prefix
    }
}

/// The names of `p`: its components but for what comes before them.
pub open spec fn names(style: Style, p: Seq<u8>) -> Seq<Seq<u8>> {
    kept(pieces(style, behind_prefix(style, p)))
}

/// The components of `p`.
pub open spec fn components(style: Style, p: Seq<u8>) -> Seq<Seq<u8>> {
    lead(style, p) + names(style, p)
}

/// Whether a path of these components is `base` or lies below it.
pub open spec fn is_under(p: Seq<Seq<u8>>, base: Seq<Seq<u8>>) -> bool {
    base.is_prefix_of(p)
}

/// Whether a path of these components is `base` followed by names, none of which
/// leads back up.
pub open spec fn is_inside(p: Seq<Seq<u8>>, base: Seq<Seq<u8>>) -> bool {
    &&& is_under(p, base)
    &&& !p.skip(base.len() as int).contains(climb())
}

/// The last component of `p`, unless that is the root directory, a prefix, `.` or
/// `..`.
pub open spec fn file_name_of(style: Style, p: Seq<u8>) -> Option<Seq<u8>> {
    let c = names(style, p);
    if c.len() > 0 && c.last() != seq![DOT] && c.last() != climb() {
        Some(c.last())
    } else {
        None
    }
}

/// Whether `p` has a parent directory: its last component is neither the root
/// directory nor a prefix.
pub open spec fn has_parent_dir(style: Style, p: Seq<u8>) -> bool {
    names(style, p).len() > 0
}

/// The separator that a platform writes.
pub open spec fn separator(style: Style) -> char {
    match style {
        Style::Unix => '/',
        Style::Windows => '\\',
    }
}

/// Whether a name is put right behind a directory: it is the current one, ends
/// with a separator, or is a bare drive.
pub open spec fn is_joined_bare(style: Style, base: Seq<u32>) -> bool {
    ||| base.len() == 0
    ||| is_separator(style, base.last())
    ||| has_drive(style, base) && base.len() == 2
}

/// `rel` below the directory `base`; `rel` itself if it has a prefix, and behind
/// the prefix of `base` if it is absolute.
pub open spec fn join_of(style: Style, base: Seq<char>, rel: Seq<char>) -> Seq<char> {
    if prefix_len(style, text_units(rel)) > 0 {
        rel
    } else if is_rooted(style, text_units(rel)) {
        base.take(prefix_len(style, text_units(base))) + rel
    } else if is_joined_bare(style, text_units(base)) {
        base + rel
    } else {
        base.push(separator(style)) + rel
    }
}

/// The views of some byte strings.
pub open spec fn views(v: Seq<Vec<u8>>) -> Seq<Seq<u8>> {
    v.map_values(|x: Vec<u8>| x@)
}

/// Appends `piece`, which ends at a separator or at the end of the path, if it
/// is a component.
fn keep(out: &mut Vec<Vec<u8>>, piece: Vec<u8>, index: usize)
    ensures
        views(final(out)@) == if is_component(index as int, piece@) {
            views(old(out)@).push(piece@)
        } else {
            views(old(out)@)
        },
{
    let dot = piece.len() == 1 && piece[0] == DOT;
    proof {
        assert(dot == (piece@ =~= seq![DOT]));
    }
    if piece.len() > 0 && (index == 0 || !dot) {
        out.push(piece);
        assert(views(out@) =~= views(old(out)@).push(piece@));
    }
}

/// A prefix as a component.
fn prefix_name(p: &[u8], n: usize) -> (res: Vec<u8>)
    requires
        n <= p@.len(),
    ensures
        res@ == prefix_component(p@.take(n as int)),
{
    let ghost prefix = p@.take(n as int);
    let mut out: Vec<u8> = Vec::new();
    let mut i: usize = 0;
    while i < n
        invariant
            n <= p@.len(),
            i <= n,
            prefix == p@.take(n as int),
            out@ == prefix_component(prefix).take(i as int),
        decreases n - i,
    {
        let b = p[i];
        let c: u8 = if b == SLASH {
            BACKSLASH
        } else if 0x61 <= b && b <= 0x7a && i + 1 < n && p[i + 1] == COLON {
            b - 0x20
        } else {
            b
        };
        out.push(c);
        proof {
            assert(c == prefix_byte(prefix, i as int));
            assert(out@ =~= prefix_component(prefix).take(i + 1));
        }
        i += 1;
    }
    proof {
        assert(prefix_component(prefix).take(n as int) =~= prefix_component(prefix));
    }
    out
}

/// What comes before the names of a path, as components.
fn lead_of(style: Style, p: &[u8]) -> (res: Vec<Vec<u8>>)
    ensures
        views(res@) == lead(style, p@),
{
    let (n, rooted) = front(style, p);
    let mut out: Vec<Vec<u8>> = Vec::new();
    if n > 0 {
        out.push(prefix_name(p, n));
    }
    let ghost prefix = views(out@);
    if rooted {
        let mut root: Vec<u8> = Vec::new();
        root.push(SLASH);
        proof {
            assert(root@ =~= root_component());
        }
        out.push(root);
        assert(views(out@) =~= prefix.push(root_component()));
    }
    proof {
        assert(views(out@) =~= lead(style, p@));
    }
    out
}

/// The names of a path.
pub fn names_of(style: Style, p: &[u8]) -> (res: Vec<Vec<u8>>)
    ensures
        views(res@) == names(style, p@),
{
    let (from, _) = front(style, p);
    let ghost rest = behind_prefix(style, p@);
    let n: usize = p.len();
    let mut out: Vec<Vec<u8>> = Vec::new();
    let mut cur: Vec<u8> = Vec::new();
    let mut index: usize = 0;
    let mut i: usize = from;
    proof {
        assert(rest.take(0) =~= Seq::<u8>::empty());
        assert(pieces(style, rest.take(0)).drop_last() =~= Seq::<Seq<u8>>::empty());
        assert(views(out@) =~= kept(pieces(style, rest.take(0)).drop_last()));
    }
    while i < n
        invariant
            n == p@.len(),
            from <= i <= n,
            index <= i - from,
            rest == p@.skip(from as int),
            pieces(style, rest.take(i - from)).len() == index + 1,
            pieces(style, rest.take(i - from)).last() == cur@,
            views(out@) == kept(pieces(style, rest.take(i - from)).drop_last()),
        decreases n - i,
    {
        let b = p[i];
        let ghost k = i - from;
        let ghost before = pieces(style, rest.take(k));
        proof {
            assert(rest[k] == b);
            assert(rest.take(k + 1).drop_last() =~= rest.take(k));
            assert(rest.take(k + 1).last() == b);
        }
        if separates(style, b as u32) {
            let ghost piece = cur@;
            keep(&mut out, cur, index);
            proof {
                assert(pieces(style, rest.take(k + 1)).drop_last() =~= before);
                assert(before.drop_last().push(piece) =~= before);
            }
            cur = Vec::new();
            index += 1;
        } else {
            cur.push(b);
            proof {
                assert(pieces(style, rest.take(k + 1)).drop_last() =~= before.drop_last());
            }
        }
        i += 1;
    }
    proof {
        assert(rest.take(n - from) =~= rest);
    }
    let ghost all = pieces(style, rest);
    let ghost piece = cur@;
    keep(&mut out, cur, index);
    proof {
        assert(all.drop_last().push(piece) =~= all);
    }
    out
}

/// The components of a path.
pub fn components_of(style: Style, p: &[u8]) -> (res: Vec<Vec<u8>>)
    ensures
        views(res@) == components(style, p@),
{
    let mut out = lead_of(style, p);
    let mut rest = names_of(style, p);
    let ghost (a, b) = (out@, rest@);
    out.append(&mut rest);
    proof {
        assert(views(a + b) =~= views(a) + views(b));
    }
    out
}

/// Whether a path of these components is `base` or lies below it.
pub fn starts_with(p: &Vec<Vec<u8>>, base: &Vec<Vec<u8>>) -> (res: bool)
    ensures
        res == is_under(views(p@), views(base@)),
{
    let n: usize = base.len();
    proof {
        assert(views(p@).len() == p@.len());
        assert(views(base@).len() == base@.len());
    }
    if n > p.len() {
        return false;
    }
    let mut i: usize = 0;
    while i < n
        invariant
            n == base@.len(),
            n <= p@.len(),
            i <= n,
            forall|j: int| 0 <= j < i ==> views(p@)[j] == views(base@)[j],
        decreases n - i,
    {
        if !text::same_bytes(p[i].as_slice(), base[i].as_slice()) {
            proof {
                assert(views(p@)[i as int] != views(base@)[i as int]);
                assert(views(base@)[i as int] != views(p@).take(n as int)[i as int]);
            }
            return false;
        }
        i += 1;
    }
    proof {
        assert(views(base@) =~= views(p@).take(n as int));
    }
    true
}

/// Whether a component is `..`.
pub fn is_climb(name: &[u8]) -> (res: bool)
    ensures
        res == (name@ == climb()),
{
    let dots = name.len() == 2 && name[0] == DOT && name[1] == DOT;
    proof {
        assert(dots == (name@ =~= climb()));
    }
    dots
}

/// Whether a component is `.`.
pub fn is_dot(name: &[u8]) -> (res: bool)
    ensures
        res == (name@ == seq![DOT]),
{
    let dot = name.len() == 1 && name[0] == DOT;
    proof {
        assert(dot == (name@ =~= seq![DOT]));
    }
    dot
}

/// Whether a path of these components leads up somewhere.
pub fn has_climb(p: &Vec<Vec<u8>>) -> (res: bool)
    ensures
        res == views(p@).contains(climb()),
{
    let n: usize = p.len();
    let mut i: usize = 0;
    while i < n
        invariant
            n == p@.len(),
            i <= n,
            forall|j: int| 0 <= j < i ==> #[trigger] views(p@)[j] != climb(),
        decreases n - i,
    {
        proof {
            assert(views(p@)[i as int] == p@[i as int]@);
        }
        if is_climb(p[i].as_slice()) {
            return true;
        }
        i += 1;
    }
    proof {
        assert(views(p@).len() == n);
    }
    false
}

/// The last component of `p`, unless that is the root directory, a prefix, `.` or
/// `..`.
pub fn file_name(style: Style, p: &[u8]) -> (res: Option<Vec<u8>>)
    ensures
        res is Some <==> file_name_of(style, p@) is Some,
        res matches Some(name) ==> file_name_of(style, p@) == Some(name@),
{
    let mut c = names_of(style, p);
    let ghost all = views(c@);
    match c.pop() {
        None => None,
        Some(name) => {
            proof {
                assert(all.last() == name@);
            }
            if is_dot(name.as_slice()) || is_climb(name.as_slice()) {
                None
            } else {
                Some(name)
            }
        },
    }
}

/// Whether `p` has a parent directory.
pub fn has_parent(style: Style, p: &[u8]) -> (res: bool)
    ensures
        res == has_parent_dir(style, p@),
{
    let c = names_of(style, p);
    proof {
        assert(views(c@).len() == c@.len());
    }
    c.len() > 0
}

/// The length of a path's prefix, and whether the path is absolute.
pub fn front(style: Style, p: &[u8]) -> (res: (usize, bool))
    ensures
        res.0 == prefix_len(style, byte_units(p@)),
        res.0 <= p@.len(),
        res.1 == is_rooted(style, byte_units(p@)),
{
    let u = units_of(p);
    let n: usize = prefix_of(style, &u);
    let rooted = (n > 0 && !with_drive(style, &u)) || (n < u.len() && separates(style, u[n]));
    (n, rooted)
}

/// Whether a byte separates components.
pub fn divides(style: Style, b: u8) -> (res: bool)
    ensures
        res == is_separator(style, b as u32),
{
    separates(style, b as u32)
}

/// Whether a name is put right behind a directory.
pub fn joins_bare(style: Style, base: &[u8]) -> (res: bool)
    ensures
        res == is_joined_bare(style, byte_units(base@)),
{
    let u = units_of(base);
    let n: usize = u.len();
    n == 0 || separates(style, u[n - 1]) || (with_drive(style, &u) && n == 2)
}

/// `rel` below the directory `base`; `rel` itself if it has a prefix, and behind
/// the prefix of `base` if it is absolute.
pub fn join(style: Style, base: &str, rel: &str) -> (res: String)
    ensures
        res@ == join_of(style, base@, rel@),
{
    let r = units_of_text(&text::chars_of(rel));
    let b = units_of_text(&text::chars_of(base));
    if prefix_of(style, &r) > 0 {
        return rel.to_string();
    }
    let n: usize = b.len();
    if r.len() > 0 && separates(style, r[0]) {
        let k: usize = prefix_of(style, &b);
        let out = text::text2(base.substring_char(0, k), rel);
        assert(base@.subrange(0, k as int) =~= base@.take(k as int));
        return out;
    }
    if n == 0 || separates(style, b[n - 1]) || (with_drive(style, &b) && n == 2) {
        text::text2(base, rel)
    } else {
        let mark = match style {
            Style::Unix => "/",
            Style::Windows => "\\",
        };
        let out = text::text3(base, mark, rel);
        proof {
            reveal_strlit("/");
            reveal_strlit("\\");
            assert(base@ + mark@ =~= base@.push(separator(style)));
        }
        out
    }
}

/// Lying below is reflexive and transitive: a directory is under itself, and
/// what is under a directory is under everything that directory is under.
pub proof fn law_under_is_a_preorder(a: Seq<Seq<u8>>, b: Seq<Seq<u8>>, c: Seq<Seq<u8>>)
    ensures
        is_under(a, a),
        is_under(a, b) && is_under(b, c) ==> is_under(a, c),
{
    assert(a =~= a.take(a.len() as int));
    if is_under(a, b) && is_under(b, c) {
        assert(c =~= a.take(c.len() as int)) by {
            assert forall|i: int| 0 <= i < c.len() implies c[i] == a.take(c.len() as int)[i] by {
                assert(c[i] == b.take(c.len() as int)[i]);
                assert(b[i] == a.take(b.len() as int)[i]);
            }
        }
    }
}

/// Whether a name holds no separator.
pub open spec fn is_unseparated(style: Style, name: Seq<u8>) -> bool {
    forall|i: int| 0 <= i < name.len() ==> !is_separator(style, #[trigger] name[i] as u32)
}

proof fn lemma_pieces(style: Style, p: Seq<u8>)
    ensures
        pieces(style, p).len() > 0,
        forall|i: int|
            0 <= i < pieces(style, p).len() ==> is_unseparated(
                style,
                #[trigger] pieces(style, p)[i],
            ),
        p.len() > 0 && is_separator(style, p[0] as u32) ==> pieces(style, p).len() > 1 && pieces(
            style,
            p,
        )[0].len() == 0,
    decreases p.len(),
{
    if p.len() > 0 {
        lemma_pieces(style, p.drop_last());
    }
}

/// Whether a component is one of some pieces.
spec fn is_kept(ps: Seq<Seq<u8>>, piece: Seq<u8>) -> bool {
    exists|i: int| 0 <= i < ps.len() && is_component(i, #[trigger] ps[i]) && ps[i] == piece
}

proof fn lemma_kept(ps: Seq<Seq<u8>>)
    ensures
        forall|k: int| 0 <= k < kept(ps).len() ==> is_kept(ps, #[trigger] kept(ps)[k]),
    decreases ps.len(),
{
    if ps.len() > 0 {
        let front = ps.drop_last();
        lemma_kept(front);
        assert forall|k: int| 0 <= k < kept(ps).len() implies is_kept(
            ps,
            #[trigger] kept(ps)[k],
        ) by {
            if k < kept(front).len() {
                assert(kept(ps)[k] == kept(front)[k]);
                assert(is_kept(front, kept(front)[k]));
                let i = choose|i: int|
                    0 <= i < front.len() && is_component(i, #[trigger] front[i]) && front[i]
                        == kept(front)[k];
                assert(ps[i] == front[i]);
            } else {
                assert(ps[ps.len() - 1] == ps.last());
            }
        }
    }
}

/// The names of a path are not empty and hold no separator; behind a leading
/// separator none of them is `.`.
pub proof fn lemma_names(style: Style, p: Seq<u8>)
    ensures
        forall|k: int|
            #![trigger names(style, p)[k]]
            0 <= k < names(style, p).len() ==> {
                &&& names(style, p)[k].len() > 0
                &&& is_unseparated(style, names(style, p)[k])
                &&& style == Style::Unix && p.len() > 0 && p[0] == SLASH ==> names(style, p)[k]
                    != seq![DOT]
            },
{
    let rest = behind_prefix(style, p);
    let ps = pieces(style, rest);
    lemma_pieces(style, rest);
    lemma_kept(ps);
    if style == Style::Unix {
        assert(rest =~= p);
    }
    assert forall|k: int|
        #![trigger names(style, p)[k]]
        0 <= k < names(style, p).len() implies {
            &&& names(style, p)[k].len() > 0
            &&& is_unseparated(style, names(style, p)[k])
            &&& style == Style::Unix && p.len() > 0 && p[0] == SLASH ==> names(style, p)[k] != seq![
                DOT,
            ]
        } by {
        assert(is_kept(ps, kept(ps)[k]));
        let i = choose|i: int|
            0 <= i < ps.len() && is_component(i, #[trigger] ps[i]) && ps[i] == kept(ps)[k];
        assert(is_unseparated(style, ps[i]));
    }
}

proof fn lemma_pieces_extended(style: Style, p: Seq<u8>, name: Seq<u8>)
    requires
        is_unseparated(style, name),
    ensures
        pieces(style, p + name) == pieces(style, p).drop_last().push(
            pieces(style, p).last() + name,
        ),
    decreases name.len(),
{
    lemma_pieces(style, p);
    let ps = pieces(style, p);
    if name.len() == 0 {
        assert(p + name =~= p);
        assert(ps.last() + name =~= ps.last());
        assert(ps.drop_last().push(ps.last()) =~= ps);
    } else {
        let front = name.drop_last();
        assert(is_unseparated(style, front)) by {
            assert forall|i: int| 0 <= i < front.len() implies !is_separator(
                style,
                #[trigger] front[i] as u32,
            ) by {
                assert(front[i] == name[i]);
            }
        }
        lemma_pieces_extended(style, p, front);
        assert((p + name).drop_last() =~= p + front);
        assert((p + name).last() == name[name.len() - 1]);
        assert(ps.last() + name =~= (ps.last() + front).push(name.last()));
        assert(ps.drop_last().push(ps.last() + front).drop_last() =~= ps.drop_last());
    }
}

/// On Unix, a path and a name behind a separator have the components of the path,
/// and the name.
pub proof fn lemma_name_behind(p: Seq<u8>, name: Seq<u8>)
    requires
        p.len() > 0,
        p.last() == SLASH,
        name.len() > 0,
        is_unseparated(Style::Unix, name),
        name != seq![DOT],
    ensures
        components(Style::Unix, p + name) == components(Style::Unix, p).push(name),
{
    let u = Style::Unix;
    let ps = pieces(u, p);
    lemma_pieces(u, p);
    lemma_pieces(u, p.drop_last());
    lemma_pieces_extended(u, p, name);
    assert(behind_prefix(u, p) =~= p);
    assert(behind_prefix(u, p + name) =~= p + name);
    assert(ps.last() =~= Seq::<u8>::empty());
    assert(ps.last() + name =~= name);
    let all = ps.drop_last().push(name);
    assert(all.drop_last() =~= ps.drop_last());
    assert(names(u, p + name) =~= names(u, p).push(name));
    assert(byte_units(p + name)[0] == byte_units(p)[0]);
    assert(lead(u, p + name) =~= lead(u, p));
    assert(components(u, p + name) =~= components(u, p).push(name));
}

/// On Unix, a separator behind a path that is not empty adds no component.
pub proof fn lemma_separator_behind(p: Seq<u8>)
    requires
        p.len() > 0,
    ensures
        components(Style::Unix, p.push(SLASH)) == components(Style::Unix, p),
{
    let u = Style::Unix;
    let q = p.push(SLASH);
    assert(behind_prefix(u, p) =~= p);
    assert(behind_prefix(u, q) =~= q);
    assert(q.drop_last() =~= p);
    assert(pieces(u, q).drop_last() =~= pieces(u, p));
    assert(names(u, q) =~= names(u, p));
    assert(byte_units(q)[0] == byte_units(p)[0]);
    assert(lead(u, q) =~= lead(u, p));
}

/// On Unix, the root directory is its only component.
pub proof fn lemma_root_components()
    ensures
        components(Style::Unix, seq![SLASH]) == seq![root_component()],
{
    let u = Style::Unix;
    let p = seq![SLASH];
    assert(behind_prefix(u, p) =~= p);
    assert(p.drop_last() =~= Seq::<u8>::empty());
    let e = Seq::<u8>::empty();
    assert(pieces(u, e) =~= seq![e]);
    assert(pieces(u, p) =~= seq![e, e]);
    assert(pieces(u, p).drop_last() =~= seq![e]);
    assert(seq![e].drop_last() =~= Seq::<Seq<u8>>::empty());
    assert(kept(seq![e].drop_last()) =~= Seq::<Seq<u8>>::empty());
    assert(seq![e].last() == e);
    assert(kept(seq![e]) =~= Seq::<Seq<u8>>::empty());
    assert(names(u, p) =~= Seq::<Seq<u8>>::empty());
    assert(byte_units(p)[0] == 0x2f);
    assert(components(u, p) =~= seq![root_component()]);
}

/// The empty path has no components, and no name.
pub proof fn lemma_no_names_in_nothing(style: Style)
    ensures
        names(style, Seq::<u8>::empty()).len() == 0,
        components(style, Seq::<u8>::empty()).len() == 0,
{
    let e = Seq::<u8>::empty();
    assert(behind_prefix(style, e) =~= e);
    assert(pieces(style, e) =~= seq![e]);
    assert(seq![e].drop_last() =~= Seq::<Seq<u8>>::empty());
    assert(kept(seq![e].drop_last()) =~= Seq::<Seq<u8>>::empty());
    assert(seq![e].last() == e);
}

/// On Unix, the name at the end of a path is its file name.
pub proof fn law_file_name_comes_last(dir: Seq<u8>, name: Seq<u8>)
    requires
        name.len() > 0,
        is_unseparated(Style::Unix, name),
        name != seq![DOT],
        name != seq![DOT, DOT],
    ensures
        file_name_of(Style::Unix, dir.push(SLASH) + name) == Some(name),
        has_parent_dir(Style::Unix, dir.push(SLASH) + name),
{
    lemma_names_behind(dir.push(SLASH), name);
}

/// On Unix, a bare name is its own file name.
pub proof fn law_name_is_its_own_file_name(name: Seq<u8>)
    requires
        name.len() > 0,
        is_unseparated(Style::Unix, name),
        name != seq![DOT],
        name != seq![DOT, DOT],
    ensures
        file_name_of(Style::Unix, name) == Some(name),
        has_parent_dir(Style::Unix, name),
        components(Style::Unix, name) == seq![name],
{
    let u = Style::Unix;
    let e = Seq::<u8>::empty();
    lemma_pieces_extended(u, e, name);
    assert(behind_prefix(u, name) =~= name);
    assert(e + name =~= name);
    assert(pieces(u, e) =~= seq![e]);
    assert(pieces(u, name) =~= seq![name]);
    assert(seq![name].drop_last() =~= Seq::<Seq<u8>>::empty());
    assert(kept(seq![name].drop_last()) =~= Seq::<Seq<u8>>::empty());
    assert(seq![name].last() == name);
    assert(names(u, name) =~= seq![name]);
    assert(byte_units(name)[0] == name[0] as u32);
    assert(!is_separator(u, name[0] as u32));
    assert(lead(u, name) =~= Seq::<Seq<u8>>::empty());
    assert(components(u, name) =~= seq![name]);
}

proof fn lemma_names_behind(p: Seq<u8>, name: Seq<u8>)
    requires
        p.len() > 0,
        p.last() == SLASH,
        name.len() > 0,
        is_unseparated(Style::Unix, name),
        name != seq![DOT],
    ensures
        names(Style::Unix, p + name) == names(Style::Unix, p).push(name),
{
    let u = Style::Unix;
    let ps = pieces(u, p);
    lemma_pieces(u, p);
    lemma_pieces(u, p.drop_last());
    lemma_pieces_extended(u, p, name);
    assert(behind_prefix(u, p) =~= p);
    assert(behind_prefix(u, p + name) =~= p + name);
    assert(ps.last() =~= Seq::<u8>::empty());
    assert(ps.last() + name =~= name);
    assert(ps.drop_last().push(name).drop_last() =~= ps.drop_last());
}

/// Characters with one number are one character.
proof fn lemma_same_character(c: char, d: char)
    ensures
        c as u32 == d as u32 <==> c == d,
{
    vstd::utf8::char_u32_cast(c, c as u32);
    vstd::utf8::char_u32_cast(d, d as u32);
}

/// On Unix, a relative path is put behind a directory with one separator between
/// them.
pub proof fn law_joined_behind_a_separator(base: Seq<char>, rel: Seq<char>)
    requires
        base.len() > 0,
        rel.len() > 0 ==> rel[0] != '/',
    ensures
        base.last() != '/' ==> join_of(Style::Unix, base, rel) == base.push('/') + rel,
        base.last() == '/' ==> join_of(Style::Unix, base, rel) == base + rel,
{
    assert(text_units(base).last() == base.last() as u32);
    lemma_same_character(base.last(), '/');
    if rel.len() > 0 {
        assert(text_units(rel)[0] == rel[0] as u32);
        lemma_same_character(rel[0], '/');
    }
}

/// On Unix, an absolute path replaces the directory that it is joined to, and a
/// path joined to nothing stays as it is.
pub proof fn law_absolute_paths_replace(base: Seq<char>, rel: Seq<char>)
    ensures
        rel.len() > 0 && rel[0] == '/' ==> join_of(Style::Unix, base, rel) == rel,
        join_of(Style::Unix, Seq::empty(), rel) == rel,
{
    if rel.len() > 0 {
        assert(text_units(rel)[0] == rel[0] as u32);
    }
    assert(base.take(0) + rel =~= rel);
    assert(Seq::<char>::empty() + rel =~= rel);
}

/// On Windows, a path with a drive replaces what it is joined to; a plain name is
/// put behind a directory on a drive with a backslash, and right behind a bare
/// drive or a separator.
pub proof fn law_joined_on_a_drive(base: Seq<char>, rel: Seq<char>)
    requires
        base.len() >= 2,
        'A' <= base[0] <= 'Z' || 'a' <= base[0] <= 'z',
        base[1] == ':',
        rel.len() > 0,
        rel[0] != '/',
        rel[0] != '\\',
    ensures
        rel.len() >= 2 && ('A' <= rel[0] <= 'Z' || 'a' <= rel[0] <= 'z') && rel[1] == ':'
            ==> join_of(Style::Windows, base, rel) == rel,
        (rel.len() < 2 || rel[1] != ':') && base.len() > 2 && base.last() != '/' && base.last()
            != '\\' ==> join_of(Style::Windows, base, rel) == base.push('\\') + rel,
        (rel.len() < 2 || rel[1] != ':') && (base.len() == 2 || base.last() == '/' || base.last()
            == '\\') ==> join_of(Style::Windows, base, rel) == base + rel,
{
    let b = text_units(base);
    let r = text_units(rel);
    assert(b[0] == base[0] as u32 && b[1] == base[1] as u32);
    assert(b.last() == base.last() as u32);
    assert(r[0] == rel[0] as u32);
    lemma_same_character(base.last(), '/');
    lemma_same_character(base.last(), '\\');
    lemma_same_character(rel[0], '/');
    lemma_same_character(rel[0], '\\');
    if rel.len() >= 2 {
        assert(r[1] == rel[1] as u32);
        lemma_same_character(rel[1], ':');
    }
    assert(share_len(Style::Windows, r) == 0);
}

/// The root directory and some names behind it, with a separator between each
/// two.
pub open spec fn written_out(all: Seq<Seq<u8>>) -> Seq<u8>
    decreases all.len(),
{
    if all.len() == 0 {
        seq![SLASH]
    } else if all.len() == 1 {
        seq![SLASH] + all[0]
    } else {
        written_out(all.drop_last()).push(SLASH) + all.last()
    }
}

/// On Unix, the components of an absolute path are the root directory and the
/// names that it is written with, with or without a separator at its end.
pub proof fn law_components_of_an_absolute_path(all: Seq<Seq<u8>>)
    requires
        forall|i: int|
            #![trigger all[i]]
            0 <= i < all.len() ==> {
                &&& all[i].len() > 0
                &&& is_unseparated(Style::Unix, all[i])
                &&& all[i] != seq![DOT]
            },
    ensures
        written_out(all).len() > 0,
        components(Style::Unix, written_out(all)) == seq![seq![SLASH]] + all,
        components(Style::Unix, written_out(all).push(SLASH)) == seq![seq![SLASH]] + all,
    decreases all.len(),
{
    let root = seq![seq![SLASH]];
    lemma_root_components();
    if all.len() == 0 {
        assert(root + all =~= root);
    } else if all.len() == 1 {
        lemma_name_behind(seq![SLASH], all[0]);
        assert(root + all =~= root.push(all[0]));
    } else {
        let front = all.drop_last();
        assert forall|i: int|
            #![trigger front[i]]
            0 <= i < front.len() implies {
                &&& front[i].len() > 0
                &&& is_unseparated(Style::Unix, front[i])
                &&& front[i] != seq![DOT]
            } by {
            assert(front[i] == all[i]);
        }
        law_components_of_an_absolute_path(front);
        assert(all[all.len() - 1] == all.last());
        lemma_name_behind(written_out(front).push(SLASH), all.last());
        assert(root + all =~= (root + front).push(all.last()));
    }
    lemma_separator_behind(written_out(all));
}

/// The root directory has no parent, nor has the empty path; whatever has a file
/// name has one.
pub proof fn law_parents(style: Style, p: Seq<u8>)
    ensures
        !has_parent_dir(Style::Unix, seq![SLASH]),
        !has_parent_dir(style, Seq::empty()),
        file_name_of(style, p) is Some ==> has_parent_dir(style, p),
{
    lemma_root_components();
    lemma_no_names_in_nothing(style);
    let root = seq![SLASH];
    let lead_ = lead(Style::Unix, root);
    assert(byte_units(root)[0] == 0x2f);
    assert(lead_.len() == 1);
    assert(components(Style::Unix, root).len() == 1);
}

/// Neither `.` nor `..` nor the root directory is a file name.
pub proof fn law_directories_have_no_file_name(dir: Seq<u8>)
    ensures
        file_name_of(Style::Unix, seq![SLASH]) is None,
        file_name_of(Style::Unix, dir.push(SLASH) + seq![DOT, DOT]) is None,
{
    law_parents(Style::Unix, seq![SLASH]);
    let up = seq![DOT, DOT];
    assert(is_unseparated(Style::Unix, up));
    assert(up.len() == 2);
    lemma_names_behind(dir.push(SLASH), up);
}

/// On Windows, the name at the end of a path on a drive is its file name, behind
/// either separator or right behind the drive; the drive itself has none.
pub proof fn law_file_names_on_drives(letter: u8, dir: Seq<u8>, mark: u8, name: Seq<u8>)
    requires
        0x41 <= letter <= 0x5a || 0x61 <= letter <= 0x7a,
        mark == SLASH || mark == BACKSLASH,
        name.len() > 0,
        is_unseparated(Style::Windows, name),
        name != seq![DOT],
        name != seq![DOT, DOT],
    ensures
        file_name_of(Style::Windows, seq![letter, COLON] + dir + seq![mark] + name) == Some(name),
        file_name_of(Style::Windows, seq![letter, COLON]) is None,
{
    let w = Style::Windows;
    let drive = seq![letter, COLON];
    let path = drive + dir + seq![mark] + name;
    let u = byte_units(path);
    assert(u[0] == letter as u32 && u[1] == 0x3a);
    let front = dir.push(mark);
    assert(behind_prefix(w, path) =~= front + name);
    lemma_pieces(w, front);
    lemma_pieces(w, front.drop_last());
    lemma_pieces_extended(w, front, name);
    let ps = pieces(w, front);
    assert(front.drop_last() =~= dir);
    assert(ps.last() =~= Seq::<u8>::empty());
    assert(ps.last() + name =~= name);
    let all = ps.drop_last().push(name);
    assert(pieces(w, front + name) == all);
    assert(all.drop_last() =~= ps.drop_last());
    assert(all.last() == name);
    let d = byte_units(drive);
    assert(d[0] == letter as u32 && d[1] == 0x3a);
    let e = Seq::<u8>::empty();
    assert(behind_prefix(w, drive) =~= e);
    assert(pieces(w, e) =~= seq![e]);
    assert(seq![e].drop_last() =~= Seq::<Seq<u8>>::empty());
    assert(kept(seq![e].drop_last()) =~= Seq::<Seq<u8>>::empty());
    assert(seq![e].last() == e);
}

/// On Windows, the letter of a drive is the same in upper and in lower case, and
/// so are the two separators; so a path counts the same however these are
/// written.
pub proof fn law_drives_in_either_case(letter: u8, rest: Seq<u8>)
    requires
        0x61 <= letter <= 0x7a,
    ensures
        components(Style::Windows, seq![letter, COLON] + rest) == components(
            Style::Windows,
            seq![(letter - 0x20) as u8, COLON] + rest,
        ),
{
    let w = Style::Windows;
    let lower = seq![letter, COLON] + rest;
    let upper = seq![(letter - 0x20) as u8, COLON] + rest;
    let (a, b) = (byte_units(lower), byte_units(upper));
    assert(a[0] == letter as u32 && a[1] == 0x3a);
    assert(b[0] == (letter - 0x20) as u32 && b[1] == 0x3a);
    assert(lower.skip(2) =~= rest);
    assert(upper.skip(2) =~= rest);
    assert(lower.take(2) =~= seq![letter, COLON]);
    assert(upper.take(2) =~= seq![(letter - 0x20) as u8, COLON]);
    assert(prefix_component(lower.take(2)) =~= seq![(letter - 0x20) as u8, COLON]);
    assert(prefix_component(upper.take(2)) =~= seq![(letter - 0x20) as u8, COLON]);
    if rest.len() > 0 {
        assert(a[2] == rest[0] as u32);
        assert(b[2] == rest[0] as u32);
    }
    assert(lead(w, lower) =~= lead(w, upper));
}

/// A path lies under another exactly if it goes on from it: some names follow.
pub proof fn law_under_is_going_on(p: Seq<Seq<u8>>, base: Seq<Seq<u8>>)
    ensures
        is_under(p, base) <==> exists|more: Seq<Seq<u8>>| p == #[trigger] (base + more),
{
    if is_under(p, base) {
        let more = p.skip(base.len() as int);
        assert(p =~= base + more) by {
            assert(base == p.take(base.len() as int));
        }
    }
    if exists|more: Seq<Seq<u8>>| p == #[trigger] (base + more) {
        let more = choose|more: Seq<Seq<u8>>| p == #[trigger] (base + more);
        assert(p.take(base.len() as int) =~= base);
    }
}

/// A piece that ends before the end of a path ends there too if more follows.
proof fn lemma_piece_end(style: Style, u: Seq<u32>, v: Seq<u32>, from: int)
    requires
        0 <= from,
    ensures
        from <= u.len() ==> from <= piece_end(style, u, from) <= u.len(),
        from <= u.len() && piece_end(style, u, from) < u.len() ==> piece_end(style, u + v, from)
            == piece_end(style, u, from),
    decreases u.len() - from,
{
    if from < u.len() {
        assert((u + v)[from] == u[from]);
        if !is_separator(style, u[from]) {
            lemma_piece_end(style, u, v, from + 1);
        }
    }
}

/// A prefix with something behind it stays the same, whatever follows.
proof fn lemma_prefix_stays(style: Style, u: Seq<u32>, v: Seq<u32>)
    requires
        0 < prefix_len(style, u) < u.len(),
    ensures
        prefix_len(style, u + v) == prefix_len(style, u),
        has_drive(style, u + v) == has_drive(style, u),
        is_rooted(style, u + v) == is_rooted(style, u),
{
    let w = u + v;
    assert(w[0] == u[0] && w[1] == u[1]);
    let n = prefix_len(style, u);
    if !has_drive(style, u) {
        let a = piece_end(style, u, 2);
        lemma_piece_end(style, u, v, 2);
        let b = piece_end(style, u, a + 1);
        lemma_piece_end(style, u, v, a + 1);
        if b < u.len() {
            lemma_piece_end(style, u, v, b + 1);
            let c = piece_end(style, u, b + 1);
            if c < u.len() {
                lemma_piece_end(style, u, v, c + 1);
            }
            assert(w.subrange(2, a) =~= u.subrange(2, a));
            assert(w.subrange(a + 1, b) =~= u.subrange(a + 1, b));
        }
    }
    assert(w[n] == u[n]);
}

/// A name behind a separator is one component more, also behind a prefix.
pub proof fn law_name_behind_a_prefix(style: Style, p: Seq<u8>, name: Seq<u8>)
    requires
        0 < prefix_len(style, byte_units(p)) < p.len(),
        is_separator(style, p.last() as u32),
        name.len() > 0,
        is_unseparated(style, name),
        name != seq![DOT],
    ensures
        components(style, p + name) == components(style, p).push(name),
        prefix_len(style, byte_units(p + name)) == prefix_len(style, byte_units(p)),
        name != seq![DOT, DOT] ==> file_name_of(style, p + name) == Some(name),
{
    let u = byte_units(p);
    let n = prefix_len(style, u);
    assert(byte_units(p + name) =~= u + byte_units(name));
    lemma_prefix_stays(style, u, byte_units(name));
    let rest = p.skip(n);
    assert((p + name).skip(n) =~= rest + name);
    assert((p + name).take(n) =~= p.take(n));
    assert(rest.last() == p.last());
    lemma_pieces(style, rest);
    lemma_pieces(style, rest.drop_last());
    lemma_pieces_extended(style, rest, name);
    let ps = pieces(style, rest);
    assert(ps.last() =~= Seq::<u8>::empty());
    assert(ps.last() + name =~= name);
    let all = ps.drop_last().push(name);
    assert(all.drop_last() =~= ps.drop_last());
    assert(all.last() == name);
    lemma_pieces(style, rest.drop_last());
    assert(names(style, p + name) =~= names(style, p).push(name));
    assert(lead(style, p + name) =~= lead(style, p));
    assert(components(style, p + name) =~= components(style, p).push(name));
}

/// A share of Windows is one component with the root directory behind it, however
/// its separators are written: neither the server nor the share is a file name.
pub proof fn law_shares_are_one_component(server: Seq<u8>, share: Seq<u8>)
    requires
        server.len() > 0,
        share.len() > 0,
        is_unseparated(Style::Windows, server),
        is_unseparated(Style::Windows, share),
    ensures
        ({
            let p = seq![BACKSLASH, BACKSLASH] + server + seq![BACKSLASH] + share;
            let q = seq![SLASH, SLASH] + server + seq![SLASH] + share;
            &&& prefix_len(Style::Windows, byte_units(p)) == p.len()
            &&& prefix_len(Style::Windows, byte_units(q)) == q.len()
            &&& components(Style::Windows, p).len() == 2
            &&& components(Style::Windows, p)[1] == seq![SLASH]
            &&& file_name_of(Style::Windows, p) is None
            &&& !has_parent_dir(Style::Windows, p)
        }),
{
    lemma_share(server, share, BACKSLASH);
    lemma_share(server, share, SLASH);
}

proof fn lemma_share(server: Seq<u8>, share: Seq<u8>, mark: u8)
    requires
        mark == SLASH || mark == BACKSLASH,
        server.len() > 0,
        share.len() > 0,
        is_unseparated(Style::Windows, server),
        is_unseparated(Style::Windows, share),
    ensures
        ({
            let p = seq![mark, mark] + server + seq![mark] + share;
            &&& prefix_len(Style::Windows, byte_units(p)) == p.len()
            &&& components(Style::Windows, p).len() == 2
            &&& components(Style::Windows, p)[1] == seq![SLASH]
            &&& file_name_of(Style::Windows, p) is None
            &&& !has_parent_dir(Style::Windows, p)
        }),
{
    let w = Style::Windows;
    let p = seq![mark, mark] + server + seq![mark] + share;
    let u = byte_units(p);
    let a = 2 + server.len() as int;
    assert(u[0] == mark as u32 && u[1] == mark as u32 && u[a] == mark as u32);
    assert forall|i: int| 2 <= i < a implies !is_separator(w, #[trigger] u[i]) by {
        assert(p[i] == server[i - 2]);
    }
    assert forall|i: int| a < i < u.len() implies !is_separator(w, #[trigger] u[i]) by {
        assert(p[i] == share[i - a - 1]);
    }
    lemma_piece_to(w, u, 2, a);
    lemma_piece_to(w, u, a + 1, u.len() as int);
    assert(p.skip(p.len() as int) =~= Seq::<u8>::empty());
    lemma_no_names_in_nothing(w);
    let e = Seq::<u8>::empty();
    assert(pieces(w, e) =~= seq![e]);
    assert(behind_prefix(w, e) =~= e);
    assert(names(w, p) == names(w, e));
    assert(p.take(p.len() as int) =~= p);
}

proof fn lemma_piece_to(style: Style, u: Seq<u32>, from: int, to: int)
    requires
        0 <= from <= to <= u.len(),
        forall|i: int| from <= i < to ==> !is_separator(style, #[trigger] u[i]),
        to == u.len() || is_separator(style, u[to]),
    ensures
        piece_end(style, u, from) == to,
    decreases to - from,
{
    if from < to {
        lemma_piece_to(style, u, from + 1, to);
    }
}

/// On Unix, a `.` behind a separator does not count.
pub proof fn law_dots_do_not_count(p: Seq<u8>)
    requires
        p.len() > 0,
    ensures
        components(Style::Unix, p.push(SLASH).push(DOT)) == components(Style::Unix, p),
{
    let u = Style::Unix;
    let q = p.push(SLASH);
    let r = q.push(DOT);
    let dot = seq![DOT];
    lemma_separator_behind(p);
    assert(r =~= q + dot);
    lemma_pieces(u, p);
    lemma_pieces(u, q);
    lemma_pieces_extended(u, q, dot);
    assert(behind_prefix(u, q) =~= q);
    assert(behind_prefix(u, r) =~= r);
    assert(q.drop_last() =~= p);
    let ps = pieces(u, q);
    assert(ps.last() =~= Seq::<u8>::empty());
    assert(ps.last() + dot =~= dot);
    let all = ps.drop_last().push(dot);
    assert(all.drop_last() =~= ps.drop_last());
    assert(all.last() == dot);
    assert(ps.drop_last() =~= pieces(u, p));
    assert(names(u, r) =~= names(u, q));
    assert(byte_units(r)[0] == byte_units(q)[0]);
    assert(lead(u, r) =~= lead(u, q));
}

/// Names with a separator between each two.
pub open spec fn written_relative(all: Seq<Seq<u8>>) -> Seq<u8>
    decreases all.len(),
{
    if all.len() == 0 {
        Seq::empty()
    } else if all.len() == 1 {
        all[0]
    } else {
        written_relative(all.drop_last()).push(SLASH) + all.last()
    }
}

/// On Unix, the components of a relative path are the names that it is written
/// with, `..` among them.
pub proof fn law_components_of_a_relative_path(all: Seq<Seq<u8>>)
    requires
        all.len() > 0,
        forall|i: int|
            #![trigger all[i]]
            0 <= i < all.len() ==> {
                &&& all[i].len() > 0
                &&& is_unseparated(Style::Unix, all[i])
                &&& all[i] != seq![DOT]
            },
    ensures
        written_relative(all).len() > 0,
        components(Style::Unix, written_relative(all)) == all,
    decreases all.len(),
{
    if all.len() == 1 {
        lemma_one_name(all[0]);
        assert(seq![all[0]] =~= all);
    } else {
        let front = all.drop_last();
        assert forall|i: int|
            #![trigger front[i]]
            0 <= i < front.len() implies {
                &&& front[i].len() > 0
                &&& is_unseparated(Style::Unix, front[i])
                &&& front[i] != seq![DOT]
            } by {
            assert(front[i] == all[i]);
        }
        law_components_of_a_relative_path(front);
        assert(all[all.len() - 1] == all.last());
        lemma_separator_behind(written_relative(front));
        lemma_name_behind(written_relative(front).push(SLASH), all.last());
        assert(front.push(all.last()) =~= all);
    }
}

proof fn lemma_one_name(name: Seq<u8>)
    requires
        name.len() > 0,
        is_unseparated(Style::Unix, name),
    ensures
        components(Style::Unix, name) == seq![name],
{
    let u = Style::Unix;
    let e = Seq::<u8>::empty();
    lemma_pieces_extended(u, e, name);
    assert(behind_prefix(u, name) =~= name);
    assert(e + name =~= name);
    assert(pieces(u, e) =~= seq![e]);
    assert(pieces(u, name) =~= seq![name]);
    assert(seq![name].drop_last() =~= Seq::<Seq<u8>>::empty());
    assert(kept(seq![name].drop_last()) =~= Seq::<Seq<u8>>::empty());
    assert(seq![name].last() == name);
    assert(names(u, name) =~= seq![name]);
    assert(byte_units(name)[0] == name[0] as u32);
    assert(!is_separator(u, name[0] as u32));
    assert(lead(u, name) =~= Seq::<Seq<u8>>::empty());
    assert(components(u, name) =~= seq![name]);
}

/// A slash separates on every platform, a backslash on Windows alone, and nothing
/// else does.
pub proof fn law_separators(unit: u32)
    ensures
        is_separator(Style::Unix, unit) <==> unit == '/' as u32,
        is_separator(Style::Windows, unit) <==> unit == '/' as u32 || unit == '\\' as u32,
        separator(Style::Unix) == '/',
        separator(Style::Windows) == '\\',
{
}

/// What some components are is what each of them holds, in their order.
pub proof fn law_views_are_their_own(v: Seq<Vec<u8>>, i: int)
    requires
        0 <= i < v.len(),
    ensures
        views(v).len() == v.len(),
        views(v)[i] == v[i]@,
{
}

/// A separator behind a path with a prefix adds no component.
pub proof fn lemma_separator_behind_a_prefix(style: Style, p: Seq<u8>, mark: u8)
    requires
        0 < prefix_len(style, byte_units(p)) < p.len(),
        is_separator(style, mark as u32),
    ensures
        components(style, p.push(mark)) == components(style, p),
        prefix_len(style, byte_units(p.push(mark))) == prefix_len(style, byte_units(p)),
{
    let u = byte_units(p);
    let n = prefix_len(style, u);
    let q = p.push(mark);
    assert(byte_units(q) =~= u + seq![mark as u32]);
    lemma_prefix_stays(style, u, seq![mark as u32]);
    assert(q.skip(n) =~= p.skip(n).push(mark));
    assert(q.take(n) =~= p.take(n));
    let rest = p.skip(n);
    assert(rest.push(mark).drop_last() =~= rest);
    assert(pieces(style, rest.push(mark)).drop_last() =~= pieces(style, rest));
    assert(names(style, q) =~= names(style, p));
    assert(lead(style, q) =~= lead(style, p));
}

/// A verbatim share of Windows is one component too, with its server and its
/// share.
pub proof fn law_verbatim_shares_are_one_component(server: Seq<u8>, share: Seq<u8>)
    requires
        is_unseparated(Style::Windows, server),
        is_unseparated(Style::Windows, share),
    ensures
        ({
            let m = seq![BACKSLASH];
            let p = seq![BACKSLASH, BACKSLASH, 0x3fu8] + m + seq![0x55u8, 0x4eu8, 0x43u8] + m
                + server + m + share;
            &&& prefix_len(Style::Windows, byte_units(p)) == p.len()
            &&& file_name_of(Style::Windows, p) is None
            &&& !has_parent_dir(Style::Windows, p)
        }),
{
    let w = Style::Windows;
    let m = seq![BACKSLASH];
    let p = seq![BACKSLASH, BACKSLASH, 0x3fu8] + m + seq![0x55u8, 0x4eu8, 0x43u8] + m + server + m
        + share;
    let u = byte_units(p);
    let c = 8 + server.len() as int;
    assert(u[0] == 0x5c && u[1] == 0x5c && u[2] == 0x3f && u[3] == 0x5c);
    assert(u[4] == 0x55 && u[5] == 0x4e && u[6] == 0x43 && u[7] == 0x5c && u[c] == 0x5c);
    assert forall|i: int| 8 <= i < c implies !is_separator(w, #[trigger] u[i]) by {
        assert(p[i] == server[i - 8]);
    }
    assert forall|i: int| c < i < u.len() implies !is_separator(w, #[trigger] u[i]) by {
        assert(p[i] == share[i - c - 1]);
    }
    lemma_piece_to(w, u, 2, 3);
    lemma_piece_to(w, u, 4, 7);
    lemma_piece_to(w, u, 8, c);
    lemma_piece_to(w, u, c + 1, u.len() as int);
    assert(u.subrange(2, 3) =~= seq![0x3fu32]);
    assert(u.subrange(4, 7) =~= seq![0x55u32, 0x4eu32, 0x43u32]);
    let e = Seq::<u8>::empty();
    assert(p.skip(p.len() as int) =~= e);
    lemma_no_names_in_nothing(w);
    assert(behind_prefix(w, e) =~= e);
    assert(names(w, p) == names(w, e));
}

} // verus!
