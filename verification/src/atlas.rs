//! Row packing of skin frames into a texture atlas: frames are laid out left
//! to right with one pixel between them, wrapping to a new row (one pixel
//! below the tallest frame of the row) when a frame would pass the atlas
//! width.
use vstd::prelude::*;

verus! {

/// Width of the atlas texture.
pub const ATLAS_WIDTH: u32 = 4096;

/// Packing cursor: next free x, top of the current row, height of the row.
pub type PackCursor = (int, int, int);

/// The cursor once a frame of width `w` is due: a new row when the row is
/// not empty and the frame (after its one-pixel gap) would pass the width.
pub open spec fn spec_row_for(c: PackCursor, w: int) -> PackCursor {
    if c.0 > 0 && c.0 + w + 1 > ATLAS_WIDTH {
        (0, c.1 + c.2 + 1, 0)
    } else {
        c
    }
}

/// Top-left corner of a frame of width `w` placed at cursor `c`.
pub open spec fn spec_place(c: PackCursor, w: int) -> (int, int) {
    let r = spec_row_for(c, w);
    (if r.0 > 0 {
        r.0 + 1
    } else {
        r.0
    }, r.1)
}

/// The cursor after placing a frame of size `f` (width, height).
pub open spec fn spec_advance(c: PackCursor, f: (u32, u32)) -> PackCursor {
    let r = spec_row_for(c, f.0 as int);
    let p = spec_place(c, f.0 as int);
    (p.0 + f.0, r.1, if f.1 > r.2 {
        f.1 as int
    } else {
        r.2
    })
}

/// The cursor after the first `k` frames.
pub open spec fn spec_cursor(sizes: Seq<(u32, u32)>, k: int) -> PackCursor
    decreases k,
{
    if k <= 0 {
        (0, 0, 0)
    } else {
        spec_advance(spec_cursor(sizes, k - 1), sizes[k - 1])
    }
}

/// Height of the atlas holding all frames.
pub open spec fn spec_atlas_height(sizes: Seq<(u32, u32)>) -> int {
    let c = spec_cursor(sizes, sizes.len() as int);
    c.1 + c.2
}

/// Placing frame `f` at cursor `c` computes nothing past `u32::MAX`.
pub open spec fn spec_step_fits(c: PackCursor, f: (u32, u32)) -> bool {
    &&& c.0 > 0 ==> c.0 + f.0 + 1 <= u32::MAX
    &&& (c.0 > 0 && c.0 + f.0 + 1 > ATLAS_WIDTH) ==> c.1 + c.2 + 1 <= u32::MAX
    &&& spec_place(c, f.0 as int).0 + f.0 <= u32::MAX
}

/// Packing `sizes` computes nothing past `u32::MAX`.
pub open spec fn spec_pack_fits(sizes: Seq<(u32, u32)>) -> bool {
    &&& forall|k: int| 0 <= k < sizes.len() ==> spec_step_fits(spec_cursor(sizes, k), #[trigger] sizes[k])
    &&& spec_atlas_height(sizes) <= u32::MAX
}

/// Top edge of frame `k` as packed.
pub open spec fn spec_frame_top(sizes: Seq<(u32, u32)>, k: int) -> int {
    spec_place(spec_cursor(sizes, k), sizes[k].0 as int).1
}

/// Bottom edge of frame `k` as packed (its top plus its height).
pub open spec fn spec_frame_bottom(sizes: Seq<(u32, u32)>, k: int) -> int {
    spec_frame_top(sizes, k) + sizes[k].1
}

/// After the first `k` frames, the cursor's row starts at the top of the
/// last frame placed, and its top plus its height is the lowest bottom edge
/// so far.
proof fn lemma_rows_so_far(sizes: Seq<(u32, u32)>, k: int)
    requires
        0 <= k <= sizes.len(),
    ensures
        ({
            let c = spec_cursor(sizes, k);
            &&& c.0 >= 0 && c.1 >= 0 && c.2 >= 0
            &&& k == 0 ==> c == (0int, 0int, 0int)
            &&& k > 0 ==> c.1 == spec_frame_top(sizes, k - 1)
            &&& forall|j: int| 0 <= j < k ==> #[trigger] spec_frame_bottom(sizes, j) <= c.1 + c.2
            &&& k > 0 ==> exists|j: int| 0 <= j < k && #[trigger] spec_frame_bottom(sizes, j) == c.1 + c.2
        }),
    decreases k,
{
    if k > 0 {
        lemma_rows_so_far(sizes, k - 1);
        let c = spec_cursor(sizes, k - 1);
        let f = sizes[k - 1];
        let r = spec_row_for(c, f.0 as int);
        let c2 = spec_cursor(sizes, k);
        assert(c2 == spec_advance(c, f));
        assert(c2.1 == r.1);
        assert(spec_frame_top(sizes, k - 1) == r.1);
        assert(spec_frame_bottom(sizes, k - 1) == r.1 + f.1);
        if k - 1 > 0 {
            let w = choose|j: int| 0 <= j < k - 1 && #[trigger] spec_frame_bottom(sizes, j) == c.1 + c.2;
            if r.1 == c.1 {
                if f.1 > r.2 {
                    assert(spec_frame_bottom(sizes, k - 1) == c2.1 + c2.2);
                } else {
                    assert(spec_frame_bottom(sizes, w) == c2.1 + c2.2);
                }
            } else {
                assert(spec_frame_bottom(sizes, k - 1) == c2.1 + c2.2);
            }
        } else {
            assert(spec_frame_bottom(sizes, k - 1) == c2.1 + c2.2);
        }
    }
}

/// The atlas is exactly as tall as its lowest frame: every frame ends at or
/// above the atlas height and some frame ends on it (an empty atlas has
/// height 0). A frame either shares the row of the frame before it or opens
/// a new row one pixel below every frame placed before it.
pub proof fn lemma_atlas_rows(sizes: Seq<(u32, u32)>)
    ensures
        forall|k: int| 0 <= k < sizes.len() ==> #[trigger] spec_frame_bottom(sizes, k) <= spec_atlas_height(sizes),
        sizes.len() > 0 ==> exists|k: int| 0 <= k < sizes.len() && #[trigger] spec_frame_bottom(sizes, k) == spec_atlas_height(sizes),
        sizes.len() == 0 ==> spec_atlas_height(sizes) == 0,
        forall|k: int| 0 < k < sizes.len() ==> spec_frame_top(sizes, k) == #[trigger] spec_frame_top(sizes, k - 1) || (
            (forall|j: int| 0 <= j < k ==> #[trigger] spec_frame_bottom(sizes, j) < spec_frame_top(sizes, k))
            && exists|j: int| 0 <= j < k && #[trigger] spec_frame_bottom(sizes, j) + 1 == spec_frame_top(sizes, k)),
{
    lemma_rows_so_far(sizes, sizes.len() as int);
    assert forall|k: int| 0 < k < sizes.len() implies spec_frame_top(sizes, k) == #[trigger] spec_frame_top(sizes, k - 1) || (
        (forall|j: int| 0 <= j < k ==> #[trigger] spec_frame_bottom(sizes, j) < spec_frame_top(sizes, k))
        && exists|j: int| 0 <= j < k && #[trigger] spec_frame_bottom(sizes, j) + 1 == spec_frame_top(sizes, k)) by {
        lemma_rows_so_far(sizes, k);
        let c = spec_cursor(sizes, k);
        let r = spec_row_for(c, sizes[k].0 as int);
        if r.1 != c.1 {
            let w = choose|j: int| 0 <= j < k && #[trigger] spec_frame_bottom(sizes, j) == c.1 + c.2;
            assert(spec_frame_bottom(sizes, w) + 1 == spec_frame_top(sizes, k));
        }
    }
}

/// Left edge of frame `k` as packed.
pub open spec fn spec_frame_left(sizes: Seq<(u32, u32)>, k: int) -> int {
    spec_place(spec_cursor(sizes, k), sizes[k].0 as int).0
}

/// Frames go left to right: the first frame sits at the origin; each later
/// frame sits one pixel right of the end of the frame before it (at the
/// left edge when that frame ends at 0), on the same row, unless the row is
/// not empty and the frame would then pass the atlas width, in which case it
/// opens a new row lower down at the left edge.
pub proof fn lemma_atlas_columns(sizes: Seq<(u32, u32)>)
    ensures
        sizes.len() > 0 ==> spec_frame_left(sizes, 0) == 0 && spec_frame_top(sizes, 0) == 0,
        forall|k: int| 0 < k < sizes.len() ==> {
            let end = #[trigger] spec_frame_left(sizes, k - 1) + sizes[k - 1].0;
            if end > 0 && end + sizes[k].0 + 1 > ATLAS_WIDTH {
                spec_frame_left(sizes, k) == 0 && spec_frame_top(sizes, k) > spec_frame_top(sizes, k - 1)
            } else {
                spec_frame_top(sizes, k) == spec_frame_top(sizes, k - 1) && spec_frame_left(sizes, k) == (
                if end > 0 {
                    end + 1
                } else {
                    0
                })
            }
        },
{
    assert forall|k: int| 0 < k < sizes.len() implies {
        let end = #[trigger] spec_frame_left(sizes, k - 1) + sizes[k - 1].0;
        if end > 0 && end + sizes[k].0 + 1 > ATLAS_WIDTH {
            spec_frame_left(sizes, k) == 0 && spec_frame_top(sizes, k) > spec_frame_top(sizes, k - 1)
        } else {
            spec_frame_top(sizes, k) == spec_frame_top(sizes, k - 1) && spec_frame_left(sizes, k) == (
            if end > 0 {
                end + 1
            } else {
                0
            })
        }
    } by {
        lemma_rows_so_far(sizes, k);
        let c = spec_cursor(sizes, k);
        assert(c == spec_advance(spec_cursor(sizes, k - 1), sizes[k - 1]));
        assert(c.0 == spec_frame_left(sizes, k - 1) + sizes[k - 1].0);
    }
}

/// Positions of frames of the given sizes (width, height) in the atlas, in
/// order, and the atlas height.
pub fn pack_frames(sizes: &[(u32, u32)]) -> (r: (Vec<(u32, u32)>, u32))
    requires
        spec_pack_fits(sizes@),
    ensures
        r.0@.len() == sizes@.len(),
        forall|k: int|
            0 <= k < sizes@.len() ==> (#[trigger] r.0@[k].0 as int, r.0@[k].1 as int) == spec_place(
                spec_cursor(sizes@, k),
                sizes@[k].0 as int,
            ),
        r.1 == spec_atlas_height(sizes@),
{
    let mut placements: Vec<(u32, u32)> = Vec::new();
    let mut cursor_x: u32 = 0;
    let mut cursor_y: u32 = 0;
    let mut row_height: u32 = 0;
    let mut k: usize = 0;
    while k < sizes.len()
        invariant
            k <= sizes@.len(),
            spec_pack_fits(sizes@),
            (cursor_x as int, cursor_y as int, row_height as int) == spec_cursor(sizes@, k as int),
            placements@.len() == k,
            forall|j: int|
                0 <= j < k ==> (#[trigger] placements@[j].0 as int, placements@[j].1 as int)
                    == spec_place(spec_cursor(sizes@, j), sizes@[j].0 as int),
        decreases sizes@.len() - k,
    {
        let (fw, fh) = sizes[k];
        assert(spec_step_fits(spec_cursor(sizes@, k as int), sizes@[k as int]));
        if cursor_x > 0 && cursor_x + fw + 1 > ATLAS_WIDTH {
            cursor_x = 0;
            cursor_y = cursor_y + row_height + 1;
            row_height = 0;
        }
        if cursor_x > 0 {
            cursor_x = cursor_x + 1;
        }
        placements.push((cursor_x, cursor_y));
        cursor_x = cursor_x + fw;
        if fh > row_height {
            row_height = fh;
        }
        k = k + 1;
    }
    (placements, cursor_y + row_height)
}

/// The rectangle `(x, y, w, h)` lies within an image of `image_w` by
/// `image_h` pixels.
pub open spec fn spec_frame_in_image(rect: (u32, u32, u32, u32), image: (u32, u32)) -> bool {
    rect.0 + rect.2 <= image.0 && rect.1 + rect.3 <= image.1
}

/// Testing the rectangle against the image computes nothing past `u32::MAX`
/// (the height sum is only taken when the width fits).
pub open spec fn spec_frame_test_fits(rect: (u32, u32, u32, u32), image: (u32, u32)) -> bool {
    &&& rect.0 + rect.2 <= u32::MAX
    &&& rect.0 + rect.2 <= image.0 ==> rect.1 + rect.3 <= u32::MAX
}

/// Whether the rectangle `rect` (x, y, w, h) lies within an image of size
/// `image` (width, height).
pub fn frame_in_image(rect: (u32, u32, u32, u32), image: (u32, u32)) -> (r: bool)
    requires
        spec_frame_test_fits(rect, image),
    ensures
        r == spec_frame_in_image(rect, image),
{
    !(rect.0 + rect.2 > image.0 || rect.1 + rect.3 > image.1)
}

/// The frames kept from the first `k`: those whose image loaded (its size is
/// given) and holds the frame's rectangle, by index.
pub open spec fn spec_kept_frames(
    rects: Seq<(u32, u32, u32, u32)>,
    images: Seq<Option<(u32, u32)>>,
    k: int,
) -> Seq<usize>
    decreases k,
{
    if k <= 0 {
        Seq::empty()
    } else {
        let before = spec_kept_frames(rects, images, k - 1);
        match images[k - 1] {
            Some(size) => if spec_frame_in_image(rects[k - 1], size) {
                before.push((k - 1) as usize)
            } else {
                before
            },
            None => before,
        }
    }
}

/// The sizes of the kept frames, in order.
pub open spec fn spec_kept_sizes(rects: Seq<(u32, u32, u32, u32)>, kept: Seq<usize>) -> Seq<(u32, u32)> {
    kept.map_values(|i: usize| (rects[i as int].2, rects[i as int].3))
}

/// Every test of a frame against its loaded image computes nothing past
/// `u32::MAX`.
pub open spec fn spec_atlas_tests_fit(rects: Seq<(u32, u32, u32, u32)>, images: Seq<Option<(u32, u32)>>) -> bool {
    forall|i: int| 0 <= i < rects.len() ==> (#[trigger] images[i] matches Some(size) ==> spec_frame_test_fits(rects[i], size))
}

/// The layout of an atlas for frames `rects` (x, y, w, h) whose images have
/// the sizes `images` (`None` where an image did not load): no atlas for no
/// frames, for no frame kept, or for a zero height; else the kept frames (by
/// index), their positions and the atlas height.
pub fn plan_atlas(rects: &Vec<(u32, u32, u32, u32)>, images: &Vec<Option<(u32, u32)>>) -> (r: Option<(Vec<usize>, Vec<(u32, u32)>, u32)>)
    requires
        images@.len() == rects@.len(),
        spec_atlas_tests_fit(rects@, images@),
        spec_pack_fits(spec_kept_sizes(rects@, spec_kept_frames(rects@, images@, rects@.len() as int))),
    ensures
        ({
            let kept = spec_kept_frames(rects@, images@, rects@.len() as int);
            let sizes = spec_kept_sizes(rects@, kept);
            match r {
                None => rects@.len() == 0 || kept.len() == 0 || spec_atlas_height(sizes) == 0,
                Some((ks, placements, height)) => {
                    &&& rects@.len() > 0 && kept.len() > 0 && spec_atlas_height(sizes) != 0
                    &&& ks@ == kept
                    &&& height == spec_atlas_height(sizes)
                    &&& placements@.len() == kept.len()
                    &&& forall|k: int| 0 <= k < kept.len() ==> (#[trigger] placements@[k].0 as int, placements@[k].1 as int) == spec_place(spec_cursor(sizes, k), sizes[k].0 as int)
                },
            }
        }),
{
    if rects.len() == 0 {
        return None;
    }
    let mut kept: Vec<usize> = Vec::new();
    let mut sizes: Vec<(u32, u32)> = Vec::new();
    let mut i: usize = 0;
    while i < rects.len()
        invariant
            i <= rects@.len(),
            images@.len() == rects@.len(),
            spec_atlas_tests_fit(rects@, images@),
            kept@ == spec_kept_frames(rects@, images@, i as int),
            sizes@ == spec_kept_sizes(rects@, kept@),
        decreases rects@.len() - i,
    {
        if let Some(size) = images[i] {
            assert(images@[i as int] matches Some(s) ==> spec_frame_test_fits(rects@[i as int], s));
            if frame_in_image(rects[i], size) {
                kept.push(i);
                sizes.push((rects[i].2, rects[i].3));
                assert(sizes@ =~= spec_kept_sizes(rects@, kept@));
            }
        }
        i = i + 1;
    }
    if kept.len() == 0 {
        return None;
    }
    let (placements, height) = pack_frames(sizes.as_slice());
    if height == 0 {
        return None;
    }
    Some((kept, placements, height))
}

} // verus!
