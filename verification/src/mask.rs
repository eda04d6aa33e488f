//! Parsing the symbol art into a mask: the set of coordinates, relative to
//! the art's top-left corner, at which the marker character stands.

use vstd::prelude::*;

use crate::geometry::DIM_LIMIT;

verus! {

/// Byte that separates the lines of the art.
pub const NEWLINE: u8 = 10;

/// Completed lines and the line still under construction after scanning
/// `art` byte by byte: a newline closes the current line, any other byte
/// extends it.
pub open spec fn spec_split(art: Seq<u8>) -> (Seq<Seq<u8>>, Seq<u8>)
    decreases art.len(),
{
    if art.len() == 0 {
        (Seq::empty(), Seq::empty())
    } else {
        let prev = spec_split(art.drop_last());
        if art.last() == NEWLINE {
            (prev.0.push(prev.1), Seq::empty())
        } else {
            (prev.0, prev.1.push(art.last()))
        }
    }
}

/// The lines of `art`: newline-separated; a trailing newline does not add
/// an empty final line.
pub open spec fn spec_lines(art: Seq<u8>) -> Seq<Seq<u8>> {
    let (done, cur) = spec_split(art);
    if cur.len() == 0 {
        done
    } else {
        done.push(cur)
    }
}

/// Whether line `y` of `lines` carries `marker` at column `x`.
pub open spec fn lines_have_marker_at(lines: Seq<Seq<u8>>, marker: u8, x: int, y: int) -> bool {
    &&& 0 <= y < lines.len()
    &&& 0 <= x < lines[y].len()
    &&& lines[y][x] == marker
}

/// Whether the art carries `marker` at column `x` of line `y`.
pub open spec fn spec_mask_contains(art: Seq<u8>, marker: u8, x: int, y: int) -> bool {
    lines_have_marker_at(spec_lines(art), marker, x, y)
}

/// Length of the longest line.
pub open spec fn spec_max_line_len(lines: Seq<Seq<u8>>) -> nat
    decreases lines.len(),
{
    if lines.len() == 0 {
        0
    } else {
        let rest = spec_max_line_len(lines.drop_last());
        if lines.last().len() > rest {
            lines.last().len()
        } else {
            rest
        }
    }
}

/// The symbol's silhouette: the marker coordinates of the art, each
/// recorded once, together with the art's natural width (longest line)
/// and height (line count).
pub struct Mask {
    pub coords: Vec<(i32, i32)>,
    pub width: usize,
    pub height: usize,
}

impl Mask {
    /// `self` is the mask of `art` with marker byte `marker`: the
    /// coordinate list holds exactly the marker positions, without
    /// duplicates, and the dimensions are the art's natural ones.
    pub open spec fn is_mask_for(&self, art: Seq<u8>, marker: u8) -> bool {
        &&& forall|p: (i32, i32)|
            #[trigger] self.coords@.contains(p) <==> spec_mask_contains(
                art,
                marker,
                p.0 as int,
                p.1 as int,
            )
        &&& forall|i: int, j: int|
            0 <= i < j < self.coords@.len() ==> self.coords@[i] != self.coords@[j]
        &&& self.width == spec_max_line_len(spec_lines(art))
        &&& self.height == spec_lines(art).len()
    }

    /// The symbol's bounding box: the art's natural width and height,
    /// so that the box always covers every mask coordinate.
    pub fn bounding_box(&self) -> (r: (i32, i32))
        requires
            self.width < DIM_LIMIT,
            self.height < DIM_LIMIT,
        ensures
            r.0 == self.width,
            r.1 == self.height,
    {
        (self.width as i32, self.height as i32)
    }
}

/// Every completed line, and the line under construction, is no longer
/// than the scanned text, and there are no more lines than bytes.
proof fn lemma_split_bounds(art: Seq<u8>)
    ensures
        spec_split(art).0.len() + spec_split(art).1.len() <= art.len(),
        forall|k: int|
            0 <= k < spec_split(art).0.len() ==> #[trigger] spec_split(art).0[k].len()
                <= art.len(),
        spec_split(art).1.len() <= art.len(),
    decreases art.len(),
{
    if art.len() > 0 {
        lemma_split_bounds(art.drop_last());
    }
}

/// The line count and every line length are bounded by the text length.
proof fn lemma_lines_bounds(art: Seq<u8>)
    ensures
        spec_lines(art).len() <= art.len(),
        forall|k: int|
            0 <= k < spec_lines(art).len() ==> #[trigger] spec_lines(art)[k].len() <= art.len(),
{
    lemma_split_bounds(art);
}

/// Split `art` into its lines.
fn split_lines(art: &[u8]) -> (r: Vec<Vec<u8>>)
    ensures
        r@.len() == spec_lines(art@).len(),
        forall|k: int| 0 <= k < r@.len() ==> #[trigger] r@[k]@ == spec_lines(art@)[k],
{
    let mut done: Vec<Vec<u8>> = Vec::new();
    let mut cur: Vec<u8> = Vec::new();
    let mut i: usize = 0;
    while i < art.len()
        invariant
            i <= art.len(),
            done@.len() == spec_split(art@.take(i as int)).0.len(),
            forall|k: int|
                0 <= k < done@.len() ==> #[trigger] done@[k]@ == spec_split(
                    art@.take(i as int),
                ).0[k],
            cur@ == spec_split(art@.take(i as int)).1,
        decreases art.len() - i,
    {
        let ghost prefix = art@.take(i as int);
        let b = art[i];
        if b == NEWLINE {
            done.push(cur);
            cur = Vec::new();
        } else {
            cur.push(b);
        }
        i = i + 1;
        proof {
            let next = art@.take(i as int);
            assert(next.drop_last() =~= prefix);
            assert(next.last() == art@[i - 1]);
        }
    }
    assert(art@.take(art@.len() as int) =~= art@);
    if cur.len() == 0 {
        done
    } else {
        done.push(cur);
        done
    }
}

/// Build the mask of `art`: scan every line top to bottom and every
/// column left to right, recording the coordinate of each marker byte.
pub fn build_mask(art: &[u8], marker: u8) -> (m: Mask)
    requires
        art@.len() <= i32::MAX,
    ensures
        m.is_mask_for(art@, marker),
{
    let lines = split_lines(art);
    let ghost ls = spec_lines(art@);
    proof {
        lemma_lines_bounds(art@);
    }
    let mut coords: Vec<(i32, i32)> = Vec::new();
    let mut width: usize = 0;
    let mut y: usize = 0;
    while y < lines.len()
        invariant
            y <= lines@.len(),
            lines@.len() == ls.len(),
            forall|k: int| 0 <= k < ls.len() ==> #[trigger] lines@[k]@ == ls[k],
            ls == spec_lines(art@),
            ls.len() <= art@.len() <= i32::MAX,
            forall|k: int| 0 <= k < ls.len() ==> #[trigger] ls[k].len() <= art@.len(),
            width == spec_max_line_len(ls.take(y as int)),
            forall|p: (i32, i32)|
                #[trigger] coords@.contains(p) <==> (p.1 < y && lines_have_marker_at(
                    ls,
                    marker,
                    p.0 as int,
                    p.1 as int,
                )),
            forall|i: int, j: int| 0 <= i < j < coords@.len() ==> coords@[i] != coords@[j],
        decreases lines@.len() - y,
    {
        let line = &lines[y];
        assert(line@ == ls[y as int]);
        if line.len() > width {
            width = line.len();
        }
        proof {
            assert(ls.take(y + 1).drop_last() =~= ls.take(y as int));
            assert(ls.take(y + 1).last() == ls[y as int]);
        }
        let mut x: usize = 0;
        while x < line.len()
            invariant
                x <= line@.len(),
                y < ls.len(),
                line@ == ls[y as int],
                ls.len() <= art@.len() <= i32::MAX,
                line@.len() <= art@.len(),
                forall|p: (i32, i32)|
                    #[trigger] coords@.contains(p) <==> ((p.1 < y || (p.1 == y && p.0 < x))
                        && lines_have_marker_at(ls, marker, p.0 as int, p.1 as int)),
                forall|i: int, j: int| 0 <= i < j < coords@.len() ==> coords@[i] != coords@[j],
            decreases line@.len() - x,
        {
            if line[x] == marker {
                let q = (x as i32, y as i32);
                assert(!coords@.contains(q));
                let ghost old_coords = coords@;
                coords.push(q);
                proof {
                    broadcast use vstd::seq_lib::lemma_seq_contains_after_push;

                    assert(coords@ == old_coords.push(q));
                    assert(forall|p: (i32, i32)|
                        #[trigger] coords@.contains(p) <==> (old_coords.contains(p) || p == q));
                    assert(forall|i: int| 0 <= i < old_coords.len() ==> old_coords[i] != q);
                }
            }
            x = x + 1;
        }
        y = y + 1;
    }
    proof {
        assert(ls.take(ls.len() as int) =~= ls);
    }
    Mask { coords, width, height: lines.len() }
}

/// Whether `(x, y)` is one of the mask's coordinates.
pub fn mask_member(m: &Mask, x: i32, y: i32) -> (r: bool)
    ensures
        r == m.coords@.contains((x, y)),
{
    let mut i: usize = 0;
    while i < m.coords.len()
        invariant
            i <= m.coords@.len(),
            forall|k: int| 0 <= k < i ==> m.coords@[k] != (x, y),
        decreases m.coords@.len() - i,
    {
        let c = m.coords[i];
        if c.0 == x && c.1 == y {
            assert(m.coords@[i as int] == (x, y));
            return true;
        }
        i = i + 1;
    }
    false
}

/// No line is longer than the longest line.
proof fn lemma_max_line_len_bound(lines: Seq<Seq<u8>>)
    ensures
        forall|k: int|
            0 <= k < lines.len() ==> #[trigger] lines[k].len() <= spec_max_line_len(lines),
    decreases lines.len(),
{
    if lines.len() > 0 {
        lemma_max_line_len_bound(lines.drop_last());
        assert forall|k: int| 0 <= k < lines.len() implies #[trigger] lines[k].len()
            <= spec_max_line_len(lines) by {
            if k < lines.len() - 1 {
                assert(lines.drop_last()[k] == lines[k]);
            }
        }
    }
}

/// Every mask coordinate lies inside the bounding box given by the art's
/// natural width and height: the box never crops the silhouette.
pub proof fn lemma_mask_within_box(m: Mask, art: Seq<u8>, marker: u8)
    requires
        m.is_mask_for(art, marker),
    ensures
        forall|p: (i32, i32)|
            #[trigger] m.coords@.contains(p) ==> 0 <= p.0 < m.width && 0 <= p.1 < m.height,
{
    lemma_max_line_len_bound(spec_lines(art));
}

/// Masks built from the same art agree: the coordinate sets, the width
/// and the height are equal, whatever order the coordinates were
/// recorded in.
pub proof fn lemma_mask_deterministic(m1: Mask, m2: Mask, art: Seq<u8>, marker: u8)
    requires
        m1.is_mask_for(art, marker),
        m2.is_mask_for(art, marker),
    ensures
        m1.coords@.to_set() == m2.coords@.to_set(),
        m1.width == m2.width,
        m1.height == m2.height,
{
    assert(m1.coords@.to_set() =~= m2.coords@.to_set());
}

} // verus!
