//! The layout of a glyph atlas: the order in which glyphs are packed, the
//! size of the texture that holds them, and the place of each glyph in it.
//!
//! Glyphs are packed in rows, tallest first. The texture is sized for rows of
//! a fixed number of glyphs; a glyph is then put behind its predecessor, or
//! at the start of a new row below where the width of the texture is used up.

use vstd::prelude::*;

verus! {

/// The measures of one glyph and its place in the atlas, in pixels.
#[derive(Debug, Clone, Copy, PartialEq, Eq)]
pub struct GlyphData {
    pub character: char,
    pub start_x: u32,
    pub start_y: u32,
    pub width: u32,
    pub height: u32,
    pub hor_advance: u32,
    pub ver_advance: u32,
    pub min_y: u32,
}

impl Default for GlyphData {
    fn default() -> (r: Self)
        ensures
            r == (GlyphData {
                character: '\0',
                start_x: 0,
                start_y: 0,
                width: 0,
                height: 0,
                hor_advance: 0,
                ver_advance: 0,
                min_y: 0,
            }),
    {
        GlyphData {
            character: '\0',
            start_x: 0,
            start_y: 0,
            width: 0,
            height: 0,
            hor_advance: 0,
            ver_advance: 0,
            min_y: 0,
        }
    }
}

/// Whether the glyph at `a` is packed before the one at `b`: the taller one
/// first, and of two that are equally tall the one that came first.
pub open spec fn comes_before(g: Seq<GlyphData>, a: int, b: int) -> bool {
    g[a].height > g[b].height || (g[a].height == g[b].height && a < b)
}

/// Whether `order` lists the places of all glyphs of `g` in the order in
/// which they are packed.
pub open spec fn is_height_order(g: Seq<GlyphData>, order: Seq<usize>) -> bool {
    &&& order.len() == g.len()
    &&& forall|k: int| 0 <= k < order.len() ==> (#[trigger] order[k]) < g.len()
    &&& forall|i: int, j: int|
        0 <= i < j < order.len() ==> comes_before(g, #[trigger] order[i] as int, #[trigger] order[j] as int)
}

/// The glyphs of `g` in the order that `order` gives.
pub open spec fn spec_arrange(g: Seq<GlyphData>, order: Seq<usize>) -> Seq<GlyphData> {
    Seq::new(order.len(), |i: int| g[order[i] as int])
}

/// The places of the glyphs in the order in which they are packed: by
/// falling height, and glyphs of one height in the order they came in.
pub fn height_order(glyphs: &Vec<GlyphData>) -> (order: Vec<usize>)
    ensures
        is_height_order(glyphs@, order@),
{
    let mut order: Vec<usize> = Vec::new();
    let mut k: usize = 0;
    while k < glyphs.len()
        invariant
            k <= glyphs.len(),
            order@.len() == k,
            forall|i: int| 0 <= i < k ==> (#[trigger] order@[i]) < k,
            forall|i: int, j: int|
                0 <= i < j < k ==> comes_before(
                    glyphs@,
                    #[trigger] order@[i] as int,
                    #[trigger] order@[j] as int,
                ),
        decreases glyphs.len() - k,
    {
        let mut p: usize = k;
        while p > 0 && glyphs[order[p - 1]].height < glyphs[k].height
            invariant
                p <= k,
                k < glyphs.len(),
                order@.len() == k,
                forall|i: int| 0 <= i < k ==> (#[trigger] order@[i]) < k,
                forall|j: int|
                    p <= j < k ==> glyphs@[(#[trigger] order@[j]) as int].height
                        < glyphs@[k as int].height,
            decreases p,
        {
            p -= 1;
        }
        let ghost before = order@;
        order.insert(p, k);
        proof {
            let after = order@;
            assert forall|i: int| 0 <= i < k + 1 implies (#[trigger] after[i]) < k + 1 by {
                if i < p {
                    assert(after[i] == before[i]);
                } else if i > p {
                    assert(after[i] == before[i - 1]);
                }
            }
            assert forall|i: int, j: int| 0 <= i < j < k + 1 implies comes_before(
                glyphs@,
                #[trigger] after[i] as int,
                #[trigger] after[j] as int,
            ) by {
                if j < p {
                    assert(after[i] == before[i] && after[j] == before[j]);
                } else if j == p {
                    assert(after[i] == before[i]);
                    assert(after[j] == k);
                    if i < p - 1 {
                        assert(comes_before(glyphs@, before[i] as int, before[p - 1] as int));
                    }
                    assert(before[i] < k);
                } else if i < p {
                    assert(after[i] == before[i] && after[j] == before[j - 1]);
                } else if i == p {
                    assert(after[i] == k);
                    assert(after[j] == before[j - 1]);
                } else {
                    assert(after[i] == before[i - 1] && after[j] == before[j - 1]);
                }
            }
        }
        k += 1;
    }
    order
}

/// The glyphs in the order that `order` gives.
pub fn arrange(glyphs: &Vec<GlyphData>, order: &Vec<usize>) -> (out: Vec<GlyphData>)
    requires
        forall|k: int| 0 <= k < order@.len() ==> (#[trigger] order@[k]) < glyphs@.len(),
    ensures
        out@ == spec_arrange(glyphs@, order@),
{
    let mut out: Vec<GlyphData> = Vec::with_capacity(order.len());
    let mut i: usize = 0;
    while i < order.len()
        invariant
            i <= order@.len(),
            out@.len() == i,
            forall|k: int| 0 <= k < order@.len() ==> (#[trigger] order@[k]) < glyphs@.len(),
            forall|k: int| 0 <= k < i ==> out@[k] == glyphs@[order@[k] as int],
        decreases order@.len() - i,
    {
        out.push(glyphs[order[i]]);
        i += 1;
    }
    assert(out@ =~= spec_arrange(glyphs@, order@));
    out
}

/// The glyphs in the order in which they are packed, and for each the place
/// at which it was given.
pub fn in_height_order(glyphs: &Vec<GlyphData>) -> (r: (Vec<usize>, Vec<GlyphData>))
    ensures
        is_height_order(glyphs@, r.0@),
        r.1@ == spec_arrange(glyphs@, r.0@),
{
    let order = height_order(glyphs);
    let arranged = arrange(glyphs, &order);
    (order, arranged)
}

/// The width of a row: the widths of its glyphs together.
pub open spec fn row_width(row: Seq<GlyphData>) -> int
    decreases row.len(),
{
    if row.len() == 0 {
        0
    } else {
        row_width(row.drop_last()) + row.last().width
    }
}

/// The height of a row: that of its tallest glyph.
pub open spec fn row_height(row: Seq<GlyphData>) -> int
    decreases row.len(),
{
    if row.len() == 0 {
        0
    } else if row_height(row.drop_last()) >= row.last().height {
        row_height(row.drop_last())
    } else {
        row.last().height as int
    }
}

/// The number of glyphs in the first row of `g`.
pub open spec fn first_row_len(g: Seq<GlyphData>, per_row: int) -> int {
    if per_row < g.len() {
        per_row
    } else {
        g.len() as int
    }
}

/// The width of the texture for rows of `per_row` glyphs: that of the
/// widest row.
pub open spec fn atlas_width(g: Seq<GlyphData>, per_row: int) -> int
    decreases g.len(),
{
    if g.len() == 0 || per_row <= 0 {
        0
    } else {
        let n = first_row_len(g, per_row);
        let rest = atlas_width(g.skip(n), per_row);
        if row_width(g.take(n)) >= rest {
            row_width(g.take(n))
        } else {
            rest
        }
    }
}

/// The height of the texture for rows of `per_row` glyphs: the heights of
/// all rows together.
pub open spec fn atlas_height(g: Seq<GlyphData>, per_row: int) -> int
    decreases g.len(),
{
    if g.len() == 0 || per_row <= 0 {
        0
    } else {
        let n = first_row_len(g, per_row);
        row_height(g.take(n)) + atlas_height(g.skip(n), per_row)
    }
}

/// A row is at least as wide as what it begins with.
proof fn lemma_row_width_grows(row: Seq<GlyphData>, k: int)
    requires
        0 <= k <= row.len(),
    ensures
        0 <= row_width(row.take(k)) <= row_width(row),
    decreases row.len() - k,
{
    if k == row.len() {
        assert(row.take(k) =~= row);
        lemma_row_width_positive(row);
    } else {
        lemma_row_width_grows(row, k + 1);
        assert(row.take(k + 1).drop_last() =~= row.take(k));
        lemma_row_width_positive(row.take(k));
    }
}

proof fn lemma_row_width_positive(row: Seq<GlyphData>)
    ensures
        0 <= row_width(row),
    decreases row.len(),
{
    if row.len() > 0 {
        lemma_row_width_positive(row.drop_last());
    }
}

proof fn lemma_row_height_range(row: Seq<GlyphData>)
    ensures
        0 <= row_height(row) <= u32::MAX,
    decreases row.len(),
{
    if row.len() > 0 {
        lemma_row_height_range(row.drop_last());
    }
}

proof fn lemma_atlas_size_positive(g: Seq<GlyphData>, per_row: int)
    ensures
        0 <= atlas_width(g, per_row),
        0 <= atlas_height(g, per_row),
    decreases g.len(),
{
    if g.len() > 0 && per_row > 0 {
        let n = first_row_len(g, per_row);
        lemma_atlas_size_positive(g.skip(n), per_row);
        lemma_row_width_positive(g.take(n));
        lemma_row_height_range(g.take(n));
    }
}

/// The size of the texture for rows of `per_row` glyphs, where both its
/// width and its height fit 32 bits.
pub fn atlas_size(glyphs: &Vec<GlyphData>, per_row: usize) -> (r: Option<(u32, u32)>)
    requires
        per_row > 0,
    ensures
        r is Some <==> atlas_width(glyphs@, per_row as int) <= u32::MAX && atlas_height(
            glyphs@,
            per_row as int,
        ) <= u32::MAX,
        r matches Some((w, h)) ==> w == atlas_width(glyphs@, per_row as int) && h == atlas_height(
            glyphs@,
            per_row as int,
        ),
{
    let n: usize = glyphs.len();
    let mut start: usize = 0;
    let mut max_width: u32 = 0;
    let mut max_height: u32 = 0;
    proof {
        assert(glyphs@.skip(0) =~= glyphs@);
        lemma_atlas_size_positive(glyphs@, per_row as int);
    }
    while start < n
        invariant
            per_row > 0,
            n == glyphs@.len(),
            start <= n,
            atlas_width(glyphs@, per_row as int) == (if max_width >= atlas_width(
                glyphs@.skip(start as int),
                per_row as int,
            ) {
                max_width as int
            } else {
                atlas_width(glyphs@.skip(start as int), per_row as int)
            }),
            atlas_height(glyphs@, per_row as int) == max_height + atlas_height(
                glyphs@.skip(start as int),
                per_row as int,
            ),
        decreases n - start,
    {
        let end: usize = if per_row < n - start {
            start + per_row
        } else {
            n
        };
        let ghost tail = glyphs@.skip(start as int);
        let ghost row = tail.take(end - start);
        proof {
            assert(first_row_len(tail, per_row as int) == end - start);
            assert(tail.skip(end - start) =~= glyphs@.skip(end as int));
            lemma_atlas_size_positive(glyphs@.skip(end as int), per_row as int);
            lemma_row_width_positive(row);
            lemma_row_height_range(row);
            assert(atlas_width(glyphs@, per_row as int) >= row_width(row));
        }
        let mut i: usize = start;
        let mut temp_width: u32 = 0;
        let mut temp_height: u32 = 0;
        while i < end
            invariant
                start <= i <= end,
                end <= n,
                n == glyphs@.len(),
                row == glyphs@.skip(start as int).take(end - start),
                atlas_width(glyphs@, per_row as int) >= row_width(row),
                temp_width == row_width(row.take(i - start)),
                temp_height == row_height(row.take(i - start)),
            decreases end - i,
        {
            let data = glyphs[i];
            proof {
                assert(row.take(i - start + 1).drop_last() =~= row.take(i - start));
                assert(row.take(i - start + 1).last() == data);
            }
            if data.width > u32::MAX - temp_width {
                proof {
                    lemma_row_width_grows(row, i - start + 1);
                }
                return None;
            }
            temp_width += data.width;
            if data.height > temp_height {
                temp_height = data.height;
            }
            i += 1;
        }
        proof {
            assert(row.take(end - start) =~= row);
        }
        if temp_width > max_width {
            max_width = temp_width;
        }
        if temp_height > u32::MAX - max_height {
            return None;
        }
        max_height += temp_height;
        start = end;
    }
    Some((max_width, max_height))
}

/// Where the next glyph goes: the corner at which it would be put, and the
/// height of the row so far.
pub struct Pen {
    pub x: int,
    pub y: int,
    pub row_height: int,
}

/// The pen at the place of `glyph`: where it stands, or at the start of a
/// new row below where the glyph would pass the width of the texture.
pub open spec fn pen_at(pen: Pen, glyph: GlyphData, max_width: int) -> Pen {
    if pen.x + glyph.width > max_width {
        Pen { x: 0, y: pen.y + pen.row_height, row_height: 0 }
    } else {
        pen
    }
}

/// The pen behind `glyph`, once it is placed.
pub open spec fn pen_past(pen: Pen, glyph: GlyphData, max_width: int) -> Pen {
    let at = pen_at(pen, glyph, max_width);
    Pen {
        x: at.x + glyph.width,
        y: at.y,
        row_height: if at.row_height >= glyph.height {
            at.row_height
        } else {
            glyph.height as int
        },
    }
}

/// The pen behind all glyphs of `g`, placed one after the other from the
/// upper left corner.
pub open spec fn pen_after(g: Seq<GlyphData>, max_width: int) -> Pen
    decreases g.len(),
{
    if g.len() == 0 {
        Pen { x: 0, y: 0, row_height: 0 }
    } else {
        pen_past(pen_after(g.drop_last(), max_width), g.last(), max_width)
    }
}

/// The corner at which the glyph at `i` is placed.
pub open spec fn corner(g: Seq<GlyphData>, max_width: int, i: int) -> Pen {
    pen_at(pen_after(g.take(i), max_width), g[i], max_width)
}

/// Whether every glyph of `g` is placed at a height that fits 32 bits.
pub open spec fn all_placed(g: Seq<GlyphData>, max_width: int) -> bool {
    forall|i: int| 0 <= i < g.len() ==> (#[trigger] corner(g, max_width, i)).y <= u32::MAX
}

/// The glyphs with their places in a texture of width `max_width`, where
/// every place fits 32 bits.
pub fn place(glyphs: &Vec<GlyphData>, max_width: u32) -> (r: Option<Vec<GlyphData>>)
    ensures
        r is Some <==> all_placed(glyphs@, max_width as int),
        r matches Some(out) ==> {
            &&& out@.len() == glyphs@.len()
            &&& forall|i: int|
                0 <= i < out@.len() ==> (#[trigger] out@[i]) == (GlyphData {
                    start_x: corner(glyphs@, max_width as int, i).x as u32,
                    start_y: corner(glyphs@, max_width as int, i).y as u32,
                    ..glyphs@[i]
                })
        },
{
    let n: usize = glyphs.len();
    let mut out: Vec<GlyphData> = Vec::with_capacity(n);
    let mut x: u32 = 0;
    let mut y: u32 = 0;
    let mut height: u32 = 0;
    let mut i: usize = 0;
    while i < n
        invariant
            i <= n,
            n == glyphs@.len(),
            out@.len() == i,
            pen_after(glyphs@.take(i as int), max_width as int) == (Pen {
                x: x as int,
                y: y as int,
                row_height: height as int,
            }),
            forall|k: int| 0 <= k < i ==> (#[trigger] corner(glyphs@, max_width as int, k)).y <= u32::MAX,
            forall|k: int|
                0 <= k < i ==> (#[trigger] out@[k]) == (GlyphData {
                    start_x: corner(glyphs@, max_width as int, k).x as u32,
                    start_y: corner(glyphs@, max_width as int, k).y as u32,
                    ..glyphs@[k]
                }),
        decreases n - i,
    {
        let data = glyphs[i];
        proof {
            assert(glyphs@.take(i + 1).drop_last() =~= glyphs@.take(i as int));
            assert(glyphs@.take(i + 1).last() == data);
        }
        if x as u64 + data.width as u64 > max_width as u64 {
            if height > u32::MAX - y {
                assert(corner(glyphs@, max_width as int, i as int).y > u32::MAX);
                return None;
            }
            x = 0;
            y += height;
            height = 0;
        }
        out.push(GlyphData { start_x: x, start_y: y, ..data });
        if data.height > height {
            height = data.height;
        }
        x += data.width;
        i += 1;
    }
    Some(out)
}

/// A texture and the glyphs in it.
pub struct AtlasLayout {
    pub width: u32,
    pub height: u32,
    /// The glyphs as they were given, each with its place.
    pub glyphs: Vec<GlyphData>,
}

/// Sizes a texture for rows of `per_row` glyphs and places the glyphs in
/// it, in the order in which they are given. There is no layout where the
/// size of the texture or the place of a glyph does not fit 32 bits.
pub fn layout(glyphs: &Vec<GlyphData>, per_row: usize) -> (r: Option<AtlasLayout>)
    requires
        per_row > 0,
    ensures
        r is Some <==> {
            &&& atlas_width(glyphs@, per_row as int) <= u32::MAX
            &&& atlas_height(glyphs@, per_row as int) <= u32::MAX
            &&& all_placed(glyphs@, atlas_width(glyphs@, per_row as int))
        },
        r matches Some(l) ==> {
            &&& l.width == atlas_width(glyphs@, per_row as int)
            &&& l.height == atlas_height(glyphs@, per_row as int)
            &&& l.glyphs@.len() == glyphs@.len()
            &&& forall|i: int|
                0 <= i < l.glyphs@.len() ==> (#[trigger] l.glyphs@[i]) == (GlyphData {
                    start_x: corner(glyphs@, l.width as int, i).x as u32,
                    start_y: corner(glyphs@, l.width as int, i).y as u32,
                    ..glyphs@[i]
                })
        },
{
    match atlas_size(glyphs, per_row) {
        None => None,
        Some((width, height)) => match place(glyphs, width) {
            None => None,
            Some(placed) => Some(AtlasLayout { width, height, glyphs: placed }),
        },
    }
}

} // verus!
