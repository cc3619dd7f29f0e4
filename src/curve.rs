use vstd::prelude::*;
use crate::path::{PointText, move_to, count_char, plain_coord, lemma_count_concat,
    lemma_count_single, lemma_move_to_count};
use crate::text::{int_text, push_int, digits_of, digit_char};

verus! {

/// Which points of the sequence a cubic command is estimated from. The command that ends
/// at point `end` starts at `start`; the control point at the start follows the line from
/// `start_prev` to `start_next`, and the control point at the end follows the line from
/// `end_prev` to `end_next`. A neighbour past either end of the sequence is replaced by
/// the vertex itself.
#[derive(Clone, Copy, Debug, PartialEq, Eq, Structural)]
pub struct Anchors {
    pub start: usize,
    pub start_prev: usize,
    pub start_next: usize,
    pub end: usize,
    pub end_prev: usize,
    pub end_next: usize,
}

/// The anchors of the cubic command that ends at point `i` of `n` points.
pub fn curve_anchors(n: usize, i: usize) -> (r: Anchors)
    requires
        1 <= i < n,
    ensures
        r.start == i - 1,
        r.start_prev == (if i >= 2 { i - 2 } else { i - 1 }),
        r.start_next == i,
        r.end == i,
        r.end_prev == i - 1,
        r.end_next == (if i + 1 < n { i + 1 } else { i as int }),
{
    let start_prev = if i >= 2 { i - 2 } else { i - 1 };
    let end_next = if i + 1 < n { i + 1 } else { i };
    Anchors { start: i - 1, start_prev, start_next: i, end: i, end_prev: i - 1, end_next }
}

/// A cubic command with every coordinate already rounded to an integer.
#[derive(Clone, Copy, Debug, PartialEq, Eq, Structural)]
pub struct CubicTo {
    pub c1x: i64,
    pub c1y: i64,
    pub c2x: i64,
    pub c2y: i64,
    pub x: i64,
    pub y: i64,
}

/// `a,b`
pub open spec fn int_pair(a: i64, b: i64) -> Seq<char> {
    int_text(a as int) + seq![','] + int_text(b as int)
}

/// The command `C c1x,c1y c2x,c2y x,y`.
pub open spec fn cubic_text(c: CubicTo) -> Seq<char> {
    seq!['C', ' '] + int_pair(c.c1x, c.c1y) + seq![' '] + int_pair(c.c2x, c.c2y) + seq![' ']
        + int_pair(c.x, c.y)
}

/// The commands of `cs[0..k]`, each preceded by a space.
pub open spec fn cubics_text(cs: Seq<CubicTo>, k: int) -> Seq<char>
    decreases k,
{
    if k <= 0 {
        Seq::empty()
    } else {
        cubics_text(cs, k - 1) + seq![' '] + cubic_text(cs[k - 1])
    }
}

/// The smooth path: a move to `start` followed by each cubic command.
pub open spec fn curve_path(start: PointText, cs: Seq<CubicTo>) -> Seq<char> {
    move_to(start) + cubics_text(cs, cs.len() as int)
}

fn push_int_pair(s: &mut String, a: i64, b: i64)
    ensures
        final(s)@ == old(s)@ + int_pair(a, b),
{
    proof {
        reveal_strlit(",");
    }
    push_int(s, a);
    s.append(",");
    push_int(s, b);
    proof {
        assert(final(s)@ =~= old(s)@ + int_pair(a, b));
    }
}

/// Appends the command `C c1x,c1y c2x,c2y x,y` to `s`.
pub fn push_cubic(s: &mut String, c: &CubicTo)
    ensures
        final(s)@ == old(s)@ + cubic_text(*c),
{
    proof {
        reveal_strlit("C ");
        reveal_strlit(" ");
    }
    s.append("C ");
    push_int_pair(s, c.c1x, c.c1y);
    s.append(" ");
    push_int_pair(s, c.c2x, c.c2y);
    s.append(" ");
    push_int_pair(s, c.x, c.y);
    proof {
        assert(final(s)@ =~= old(s)@ + cubic_text(*c));
    }
}

/// Writes the smooth path that starts at `start` and follows `curves` in order.
pub fn curve_path_text(start: &PointText, curves: &Vec<CubicTo>) -> (r: String)
    ensures
        r@ == curve_path(*start, curves@),
{
    proof {
        reveal_strlit("M ");
        reveal_strlit(",");
    }
    let mut s = String::new();
    s.append("M ");
    s.append(start.x.as_str());
    s.append(",");
    s.append(start.y.as_str());
    assert(s@ =~= move_to(*start));
    let mut i: usize = 0;
    while i < curves.len()
        invariant
            i <= curves.len(),
            s@ == move_to(*start) + cubics_text(curves@, i as int),
        decreases curves.len() - i,
    {
        proof {
            reveal_strlit(" ");
        }
        s.append(" ");
        push_cubic(&mut s, &curves[i]);
        proof {
            assert(s@ =~= move_to(*start) + cubics_text(curves@, i + 1));
        }
        i = i + 1;
    }
    s
}

proof fn lemma_digits_plain(n: nat, c: char)
    requires
        c == 'M' || c == 'C',
    ensures
        count_char(digits_of(n), c) == 0,
    decreases n,
{
    if n < 10 {
        lemma_count_single(digit_char(n), c);
    } else {
        lemma_digits_plain(n / 10, c);
        lemma_count_single(digit_char(n % 10), c);
        lemma_count_concat(digits_of(n / 10), seq![digit_char(n % 10)], c);
    }
}

proof fn lemma_int_pair_plain(a: i64, b: i64, c: char)
    requires
        c == 'M' || c == 'C',
    ensures
        count_char(int_pair(a, b), c) == 0,
{
    lemma_int_text_plain(a as int, c);
    lemma_int_text_plain(b as int, c);
    lemma_count_single(',', c);
    lemma_count_concat(int_text(a as int), seq![','], c);
    lemma_count_concat(int_text(a as int) + seq![','], int_text(b as int), c);
}

proof fn lemma_int_text_plain(n: int, c: char)
    requires
        c == 'M' || c == 'C',
    ensures
        count_char(int_text(n), c) == 0,
{
    if n < 0 {
        lemma_digits_plain((-n) as nat, c);
        lemma_count_single('-', c);
        lemma_count_concat(seq!['-'], digits_of((-n) as nat), c);
    } else {
        lemma_digits_plain(n as nat, c);
    }
}

proof fn lemma_cubic_count(cu: CubicTo, c: char)
    requires
        c == 'M' || c == 'C',
    ensures
        count_char(seq![' '] + cubic_text(cu), c) == (if c == 'C' { 1nat } else { 0nat }),
{
    let p1 = int_pair(cu.c1x, cu.c1y);
    let p2 = int_pair(cu.c2x, cu.c2y);
    let p3 = int_pair(cu.x, cu.y);
    let sp = seq![' '];
    assert(sp + cubic_text(cu) =~= sp + seq!['C'] + sp + p1 + sp + p2 + sp + p3);
    lemma_count_single(' ', c);
    lemma_count_single('C', c);
    lemma_int_pair_plain(cu.c1x, cu.c1y, c);
    lemma_int_pair_plain(cu.c2x, cu.c2y, c);
    lemma_int_pair_plain(cu.x, cu.y, c);
    lemma_count_concat(sp, seq!['C'], c);
    lemma_count_concat(sp + seq!['C'], sp, c);
    lemma_count_concat(sp + seq!['C'] + sp, p1, c);
    lemma_count_concat(sp + seq!['C'] + sp + p1, sp, c);
    lemma_count_concat(sp + seq!['C'] + sp + p1 + sp, p2, c);
    lemma_count_concat(sp + seq!['C'] + sp + p1 + sp + p2, sp, c);
    lemma_count_concat(sp + seq!['C'] + sp + p1 + sp + p2 + sp, p3, c);
}

proof fn lemma_cubics_count(cs: Seq<CubicTo>, k: int, c: char)
    requires
        0 <= k <= cs.len(),
        c == 'M' || c == 'C',
    ensures
        count_char(cubics_text(cs, k), c) == (if c == 'C' { k as nat } else { 0nat }),
    decreases k,
{
    if k > 0 {
        lemma_cubics_count(cs, k - 1, c);
        lemma_cubic_count(cs[k - 1], c);
        assert(cubics_text(cs, k) =~= cubics_text(cs, k - 1) + (seq![' '] + cubic_text(cs[k - 1])));
        lemma_count_concat(cubics_text(cs, k - 1), seq![' '] + cubic_text(cs[k - 1]), c);
    } else {
        assert(count_char(Seq::<char>::empty(), c) == 0);
    }
}

/// A smooth path holds exactly one move command, at its start, and exactly one cubic
/// command per curve, so `n - 1` of them for a path through `n` points.
pub proof fn lemma_curve_path_shape(start: PointText, cs: Seq<CubicTo>)
    requires
        plain_coord(start.x@),
        plain_coord(start.y@),
    ensures
        curve_path(start, cs).take(move_to(start).len() as int) == move_to(start),
        count_char(curve_path(start, cs), 'M') == 1,
        count_char(curve_path(start, cs), 'C') == cs.len(),
{
    let m = move_to(start);
    let body = cubics_text(cs, cs.len() as int);
    assert((m + body).take(m.len() as int) =~= m);
    lemma_move_to_count(start, 'M');
    lemma_move_to_count(start, 'C');
    lemma_cubics_count(cs, cs.len() as int, 'M');
    lemma_cubics_count(cs, cs.len() as int, 'C');
    lemma_count_concat(m, body, 'M');
    lemma_count_concat(m, body, 'C');
}

} // verus!
