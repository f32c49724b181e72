//! Searching text, and its lines.
use vstd::prelude::*;

use crate::text;

verus! {

/// Whether `part` occurs in `s` at index `i`.
pub open spec fn occurs_at(s: Seq<char>, part: Seq<char>, i: int) -> bool {
    0 <= i <= s.len() - part.len() && s.subrange(i, i + part.len()) == part
}

/// Whether `part` occurs somewhere in `s`.
pub open spec fn contains_text(s: Seq<char>, part: Seq<char>) -> bool {
    exists|i: int| occurs_at(s, part, i)
}

/// Whether `part` occurs somewhere in `s`.
pub fn contains(s: &str, part: &str) -> (res: bool)
    ensures
        res == contains_text(s@, part@),
{
    let n: usize = s.unicode_len();
    let k: usize = part.unicode_len();
    if k > n {
        return false;
    }
    let mut i: usize = 0;
    while i <= n - k
        invariant
            n == s@.len(),
            k == part@.len(),
            k <= n,
            i <= n - k + 1,
            forall|j: int| 0 <= j < i ==> !occurs_at(s@, part@, j),
        ensures
            !contains_text(s@, part@),
        decreases n - k + 1 - i,
    {
        if text::same_text(s.substring_char(i, i + k), part) {
            assert(occurs_at(s@, part@, i as int));
            return true;
        }
        assert(!occurs_at(s@, part@, i as int));
        if i == n - k {
            break;
        }
        i += 1;
    }
    false
}

/// `s` without its leading white space.
pub fn trim_front(s: &str) -> (res: &str)
    ensures
        res@ == text::trim_start(s@),
{
    let cs = text::chars_of(s);
    let n: usize = cs.len();
    let mut from: usize = 0;
    proof {
        assert(cs@.skip(0) =~= cs@);
    }
    while from < n && text::white_space(cs[from])
        invariant
            n == cs@.len(),
            from <= n,
            text::trim_start(cs@) == text::trim_start(cs@.skip(from as int)),
        decreases n - from,
    {
        proof {
            assert(cs@.skip(from as int).skip(1) =~= cs@.skip(from + 1));
        }
        from += 1;
    }
    proof {
        assert(cs@.subrange(from as int, n as int) =~= cs@.skip(from as int));
    }
    s.substring_char(from, n)
}

/// A line without the carriage return at its end, if it ends with one.
pub open spec fn without_return(line: Seq<char>) -> Seq<char> {
    if line.len() > 0 && line.last() == '\r' {
        line.drop_last()
    } else {
        line
    }
}

/// The lines that `s` ends with line feeds, without their ends, and what
/// follows the last of them.
pub open spec fn ended_lines(s: Seq<char>) -> (Seq<Seq<char>>, Seq<char>)
    decreases s.len(),
{
    if s.len() == 0 {
        (Seq::empty(), Seq::empty())
    } else {
        let (lines, rest) = ended_lines(s.drop_last());
        if s.last() == '\n' {
            (lines.push(without_return(rest)), Seq::empty())
        } else {
            (lines, rest.push(s.last()))
        }
    }
}

/// The lines of `s`. A line ends with a line feed, or with a carriage return
/// and a line feed; the last one may lack its end.
pub open spec fn lines_of(s: Seq<char>) -> Seq<Seq<char>> {
    let (lines, rest) = ended_lines(s);
    if rest.len() == 0 {
        lines
    } else {
        lines.push(rest)
    }
}

/// The texts of some string slices.
pub open spec fn slices<'a>(v: Seq<&'a str>) -> Seq<Seq<char>> {
    v.map_values(|s: &'a str| s@)
}

/// The lines of `s`.
pub fn lines<'a>(s: &'a str) -> (res: Vec<&'a str>)
    ensures
        slices(res@) == lines_of(s@),
{
    let cs = text::chars_of(s);
    let n: usize = cs.len();
    let mut out: Vec<&'a str> = Vec::new();
    let mut from: usize = 0;
    let mut i: usize = 0;
    proof {
        assert(cs@.take(0) =~= Seq::<char>::empty());
        assert(slices(out@) =~= Seq::<Seq<char>>::empty());
        assert(cs@.subrange(0, 0) =~= Seq::<char>::empty());
    }
    while i < n
        invariant
            n == cs@.len(),
            cs@ == s@,
            from <= i <= n,
            ended_lines(cs@.take(i as int)) == (
                slices(out@),
                cs@.subrange(from as int, i as int),
            ),
        decreases n - i,
    {
        let ghost before = slices(out@);
        let ghost rest = cs@.subrange(from as int, i as int);
        proof {
            assert(cs@.take(i + 1).drop_last() =~= cs@.take(i as int));
            assert(cs@.take(i + 1).last() == cs@[i as int]);
        }
        if cs[i] == '\n' {
            let to: usize = if i > from && cs[i - 1] == '\r' {
                i - 1
            } else {
                i
            };
            proof {
                if to < i {
                    assert(rest.last() == cs@[i - 1]);
                    assert(rest.drop_last() =~= cs@.subrange(from as int, to as int));
                }
                assert(without_return(rest) =~= cs@.subrange(from as int, to as int));
            }
            let line: &'a str = s.substring_char(from, to);
            out.push(line);
            from = i + 1;
            proof {
                assert(slices(out@) =~= before.push(line@));
                assert(cs@.subrange(from as int, i + 1) =~= Seq::<char>::empty());
            }
        } else {
            proof {
                assert(cs@.subrange(from as int, i + 1) =~= rest.push(cs@[i as int]));
            }
        }
        i += 1;
    }
    proof {
        assert(cs@.take(n as int) =~= cs@);
    }
    let ghost before = slices(out@);
    if from < n {
        let line: &'a str = s.substring_char(from, n);
        out.push(line);
        assert(slices(out@) =~= before.push(line@));
    }
    out
}

/// A text with another inside it contains it, wherever; and a text contains
/// another only so.
pub proof fn law_containing_is_standing_inside(s: Seq<char>, part: Seq<char>)
    ensures
        contains_text(s, part) <==> exists|a: Seq<char>, b: Seq<char>|
            s == #[trigger] (a + part + b),
{
    if contains_text(s, part) {
        let i = choose|i: int| occurs_at(s, part, i);
        let (a, b) = (s.take(i), s.skip(i + part.len()));
        assert(s =~= a + part + b);
    }
    if exists|a: Seq<char>, b: Seq<char>| s == #[trigger] (a + part + b) {
        let (a, b) = choose|a: Seq<char>, b: Seq<char>| s == #[trigger] (a + part + b);
        assert(s.subrange(a.len() as int, (a.len() + part.len()) as int) =~= part);
        assert(occurs_at(s, part, a.len() as int));
    }
}

proof fn lemma_lines_behind(a: Seq<char>, b: Seq<char>)
    requires
        !a.contains('\n'),
    ensures
        ended_lines(a) == (Seq::<Seq<char>>::empty(), a),
        ended_lines(a.push('\n') + b).0 == seq![without_return(a)] + ended_lines(b).0,
        ended_lines(a.push('\n') + b).1 == ended_lines(b).1,
    decreases a.len() + b.len(),
{
    let ended = a.push('\n');
    let whole = ended + b;
    if a.len() > 0 {
        let front = a.drop_last();
        assert(a.contains(a.last()));
        assert(!front.contains('\n')) by {
            if front.contains('\n') {
                let k = choose|k: int| 0 <= k < front.len() && front[k] == '\n';
                assert(a[k] == '\n');
            }
        }
        lemma_lines_behind(front, Seq::empty());
        assert(front.push(a.last()) =~= a);
    } else {
        assert(a =~= Seq::<char>::empty());
    }
    if b.len() == 0 {
        assert(whole =~= ended);
        assert(ended.drop_last() =~= a);
        assert(ended.last() == '\n');
        assert(ended_lines(a).0 =~= Seq::<Seq<char>>::empty());
        assert(ended_lines(a).1 =~= a);
        assert(ended_lines(ended).0 =~= Seq::<Seq<char>>::empty().push(without_return(a)));
        assert(Seq::<Seq<char>>::empty().push(without_return(a)) =~= seq![without_return(a)]
            + ended_lines(b).0);
    } else {
        assert(whole.drop_last() =~= ended + b.drop_last());
        assert(whole.last() == b.last());
        lemma_lines_behind(a, b.drop_last());
        assert(ended_lines(whole).0 =~= seq![without_return(a)] + ended_lines(b).0);
    }
}

/// The lines of a text are what comes before its first line feed, without a
/// carriage return there, and then the lines of what follows; a text without a
/// line feed is one line, and an empty one none.
pub proof fn law_lines_end_at_line_feeds(a: Seq<char>, b: Seq<char>)
    requires
        !a.contains('\n'),
    ensures
        a.len() > 0 ==> lines_of(a) == seq![a],
        lines_of(Seq::<char>::empty()) == Seq::<Seq<char>>::empty(),
        lines_of(a.push('\n') + b) == seq![
            if a.len() > 0 && a.last() == '\r' {
                a.drop_last()
            } else {
                a
            },
        ] + lines_of(b),
{
    lemma_lines_behind(a, b);
    lemma_lines_behind(Seq::empty(), Seq::empty());
    assert(lines_of(a.push('\n') + b) =~= seq![without_return(a)] + lines_of(b));
    assert(Seq::<Seq<char>>::empty().push(a) =~= seq![a]);
}

} // verus!
