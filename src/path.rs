use vstd::prelude::*;

verus! {

/// A point whose coordinates are already written as decimal text.
#[derive(Debug, Clone, PartialEq)]
pub struct PointText {
    pub x: String,
    pub y: String,
}

/// Number of occurrences of `c` in `s`.
pub open spec fn count_char(s: Seq<char>, c: char) -> nat
    decreases s.len(),
{
    if s.len() == 0 {
        0
    } else {
        count_char(s.drop_last(), c) + (if s.last() == c { 1nat } else { 0nat })
    }
}

pub(crate) proof fn lemma_count_concat(a: Seq<char>, b: Seq<char>, c: char)
    ensures
        count_char(a + b, c) == count_char(a, c) + count_char(b, c),
    decreases b.len(),
{
    if b.len() == 0 {
        assert(a + b =~= a);
    } else {
        assert((a + b).drop_last() =~= a + b.drop_last());
        lemma_count_concat(a, b.drop_last(), c);
    }
}

pub(crate) proof fn lemma_count_single(x: char, c: char)
    ensures
        count_char(seq![x], c) == (if x == c { 1nat } else { 0nat }),
{
    assert(seq![x].drop_last() =~= Seq::<char>::empty());
    assert(count_char(Seq::<char>::empty(), c) == 0);
    assert(seq![x].last() == x);
}

/// Text that holds none of the characters that separate path tokens or name commands.
pub open spec fn plain_coord(s: Seq<char>) -> bool {
    forall|i: int| 0 <= i < s.len() ==> s[i] != 'M' && s[i] != 'L' && s[i] != 'C'
}

pub(crate) proof fn lemma_plain_count(s: Seq<char>, c: char)
    requires
        plain_coord(s),
        c == 'M' || c == 'L' || c == 'C',
    ensures
        count_char(s, c) == 0,
    decreases s.len(),
{
    if s.len() > 0 {
        lemma_plain_count(s.drop_last(), c);
    }
}

/// `x,y`
pub open spec fn coord_pair(p: PointText) -> Seq<char> {
    p.x@ + seq![','] + p.y@
}

/// The move command `M x,y`.
pub open spec fn move_to(p: PointText) -> Seq<char> {
    seq!['M', ' '] + coord_pair(p)
}

/// The line command `L x,y`.
pub open spec fn line_to(p: PointText) -> Seq<char> {
    seq!['L', ' '] + coord_pair(p)
}

/// Line commands for the points of `pts[1..hi]` that are not marked in `sharp`.
pub open spec fn kept_lines(pts: Seq<PointText>, sharp: Seq<bool>, hi: int) -> Seq<char>
    decreases hi,
{
    if hi <= 1 {
        Seq::empty()
    } else if sharp[hi - 1] {
        kept_lines(pts, sharp, hi - 1)
    } else {
        kept_lines(pts, sharp, hi - 1) + line_to(pts[hi - 1])
    }
}

/// The straight path through `pts`: a move to the first point, a line to each interior
/// point not marked in `sharp`, and a line to the last point.
pub open spec fn straight_path(pts: Seq<PointText>, sharp: Seq<bool>) -> Seq<char> {
    move_to(pts[0]) + kept_lines(pts, sharp, pts.len() - 1) + line_to(pts[pts.len() - 1])
}

/// Whether some interior point is marked in `sharp`.
pub open spec fn drops_some(pts: Seq<PointText>, sharp: Seq<bool>) -> bool {
    exists|i: int| 0 < i < pts.len() - 1 && sharp[i]
}

/// Number of interior points in `pts[1..hi]` that are not marked in `sharp`.
pub open spec fn kept_count(sharp: Seq<bool>, hi: int) -> nat
    decreases hi,
{
    if hi <= 1 {
        0
    } else {
        kept_count(sharp, hi - 1) + (if sharp[hi - 1] { 0nat } else { 1nat })
    }
}

fn push_coord_pair(s: &mut String, p: &PointText)
    ensures
        final(s)@ == old(s)@ + coord_pair(*p),
{
    proof {
        reveal_strlit(",");
    }
    s.append(p.x.as_str());
    s.append(",");
    s.append(p.y.as_str());
    proof {
        assert(final(s)@ =~= old(s)@ + coord_pair(*p));
    }
}

/// Writes the straight path through `points`, leaving out each interior point marked in
/// `sharp`; the flag tells whether any point was left out. The marks of the first and the
/// last point are not read: both are always kept.
pub fn straight_path_text(points: &Vec<PointText>, sharp: &Vec<bool>) -> (r: (String, bool))
    requires
        points.len() >= 2,
        sharp.len() == points.len(),
    ensures
        r.0@ == straight_path(points@, sharp@),
        r.1 == drops_some(points@, sharp@),
{
    proof {
        reveal_strlit("M ");
        reveal_strlit("L ");
    }
    let n = points.len();
    let mut s = String::new();
    s.append("M ");
    push_coord_pair(&mut s, &points[0]);
    let mut dropped = false;
    let mut i: usize = 1;
    while i < n - 1
        invariant
            n == points.len(),
            n == sharp.len(),
            n >= 2,
            1 <= i <= n - 1,
            s@ == move_to(points@[0]) + kept_lines(points@, sharp@, i as int),
            dropped == (exists|j: int| 0 < j < i && sharp@[j]),
        decreases n - i,
    {
        let ghost s0 = s@;
        proof {
            reveal_strlit("L ");
        }
        if sharp[i] {
            dropped = true;
        } else {
            s.append("L ");
            push_coord_pair(&mut s, &points[i]);
            assert(s@ =~= s0 + line_to(points@[i as int]));
        }
        proof {
            assert(kept_lines(points@, sharp@, i + 1) == if sharp@[i as int] {
                kept_lines(points@, sharp@, i as int)
            } else {
                kept_lines(points@, sharp@, i as int) + line_to(points@[i as int])
            });
            assert(s@ =~= move_to(points@[0]) + kept_lines(points@, sharp@, i + 1));
            if dropped {
                if !sharp@[i as int] {
                    let j = choose|j: int| 0 < j < i && sharp@[j];
                    assert(0 < j < i + 1 && sharp@[j]);
                }
            } else {
                assert(forall|j: int| 0 < j < i + 1 ==> !sharp@[j]);
            }
        }
        i = i + 1;
    }
    s.append("L ");
    push_coord_pair(&mut s, &points[n - 1]);
    proof {
        assert(s@ =~= straight_path(points@, sharp@));
    }
    (s, dropped)
}

proof fn lemma_kept_lines_count(pts: Seq<PointText>, sharp: Seq<bool>, hi: int)
    requires
        hi <= pts.len(),
        hi <= sharp.len(),
        forall|i: int| 0 <= i < pts.len() ==> plain_coord(#[trigger] pts[i].x@) && plain_coord(pts[i].y@),
    ensures
        count_char(kept_lines(pts, sharp, hi), 'L') == kept_count(sharp, hi),
        count_char(kept_lines(pts, sharp, hi), 'M') == 0,
    decreases hi,
{
    if hi > 1 {
        lemma_kept_lines_count(pts, sharp, hi - 1);
        if !sharp[hi - 1] {
            let p = pts[hi - 1];
            lemma_line_to_count(p);
            lemma_count_concat(kept_lines(pts, sharp, hi - 1), line_to(p), 'L');
            lemma_count_concat(kept_lines(pts, sharp, hi - 1), line_to(p), 'M');
        }
    }
}

pub(crate) proof fn lemma_coord_pair_count(p: PointText, c: char)
    requires
        plain_coord(p.x@),
        plain_coord(p.y@),
        c == 'M' || c == 'L' || c == 'C',
    ensures
        count_char(coord_pair(p), c) == 0,
{
    lemma_plain_count(p.x@, c);
    lemma_plain_count(p.y@, c);
    lemma_count_single(',', c);
    lemma_count_concat(p.x@, seq![','], c);
    lemma_count_concat(p.x@ + seq![','], p.y@, c);
}

proof fn lemma_line_to_count(p: PointText)
    requires
        plain_coord(p.x@),
        plain_coord(p.y@),
    ensures
        count_char(line_to(p), 'L') == 1,
        count_char(line_to(p), 'M') == 0,
{
    assert(seq!['L', ' '] =~= seq!['L'] + seq![' ']);
    lemma_count_single('L', 'L');
    lemma_count_single(' ', 'L');
    lemma_count_single('L', 'M');
    lemma_count_single(' ', 'M');
    lemma_count_concat(seq!['L'], seq![' '], 'L');
    lemma_count_concat(seq!['L'], seq![' '], 'M');
    lemma_coord_pair_count(p, 'L');
    lemma_coord_pair_count(p, 'M');
    lemma_count_concat(seq!['L', ' '], coord_pair(p), 'L');
    lemma_count_concat(seq!['L', ' '], coord_pair(p), 'M');
}

pub(crate) proof fn lemma_move_to_count(p: PointText, c: char)
    requires
        plain_coord(p.x@),
        plain_coord(p.y@),
        c == 'M' || c == 'L' || c == 'C',
    ensures
        count_char(move_to(p), c) == (if c == 'M' { 1nat } else { 0nat }),
{
    assert(seq!['M', ' '] =~= seq!['M'] + seq![' ']);
    lemma_count_single('M', c);
    lemma_count_single(' ', c);
    lemma_count_concat(seq!['M'], seq![' '], c);
    lemma_coord_pair_count(p, c);
    lemma_count_concat(seq!['M', ' '], coord_pair(p), c);
}

proof fn lemma_kept_count_bound(sharp: Seq<bool>, hi: int)
    ensures
        kept_count(sharp, hi) <= (if hi <= 1 { 0 } else { hi - 1 }),
    decreases hi,
{
    if hi > 1 {
        lemma_kept_count_bound(sharp, hi - 1);
    }
}

/// The straight path always begins with a move to the first point and ends with a line to
/// the last one; it holds one move command and one line command per kept point, so never
/// more line commands than there are points after the first.
pub proof fn lemma_straight_path_shape(pts: Seq<PointText>, sharp: Seq<bool>)
    requires
        pts.len() >= 2,
        sharp.len() == pts.len(),
        forall|i: int| 0 <= i < pts.len() ==> plain_coord(#[trigger] pts[i].x@) && plain_coord(pts[i].y@),
    ensures
        straight_path(pts, sharp).take(move_to(pts[0]).len() as int) == move_to(pts[0]),
        straight_path(pts, sharp).skip(
            straight_path(pts, sharp).len() - line_to(pts[pts.len() - 1]).len(),
        ) == line_to(pts[pts.len() - 1]),
        count_char(straight_path(pts, sharp), 'M') == 1,
        count_char(straight_path(pts, sharp), 'L') == kept_count(sharp, pts.len() - 1) + 1,
        count_char(straight_path(pts, sharp), 'L') <= pts.len() - 1,
{
    let first = move_to(pts[0]);
    let mid = kept_lines(pts, sharp, pts.len() - 1);
    let last = line_to(pts[pts.len() - 1]);
    assert((first + mid + last).take(first.len() as int) =~= first);
    assert((first + mid + last).skip((first + mid + last).len() - last.len()) =~= last);
    lemma_kept_lines_count(pts, sharp, pts.len() - 1);
    lemma_move_to_count(pts[0], 'M');
    lemma_move_to_count(pts[0], 'L');
    lemma_line_to_count(pts[pts.len() - 1]);
    lemma_count_concat(first, mid, 'M');
    lemma_count_concat(first, mid, 'L');
    lemma_count_concat(first + mid, last, 'M');
    lemma_count_concat(first + mid, last, 'L');
    lemma_kept_count_bound(sharp, pts.len() - 1);
}

/// A path where no point is marked sharp keeps every point.
pub proof fn lemma_nothing_sharp_keeps_all(pts: Seq<PointText>, sharp: Seq<bool>)
    requires
        pts.len() >= 2,
        sharp.len() == pts.len(),
        forall|i: int| 0 <= i < sharp.len() ==> !sharp[i],
    ensures
        kept_count(sharp, pts.len() - 1) == pts.len() - 2,
        !drops_some(pts, sharp),
{
    lemma_kept_count_all(sharp, pts.len() - 1);
}

proof fn lemma_kept_count_all(sharp: Seq<bool>, hi: int)
    requires
        hi <= sharp.len(),
        forall|i: int| 0 <= i < sharp.len() ==> !sharp[i],
    ensures
        kept_count(sharp, hi) == (if hi <= 1 { 0 } else { hi - 1 }),
    decreases hi,
{
    if hi > 1 {
        lemma_kept_count_all(sharp, hi - 1);
    }
}

} // verus!
