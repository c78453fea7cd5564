//! Where the reward names stand on the screen, scaled from a 1920×1080
//! reference layout.

use vstd::prelude::*;

verus! {

/// The layout of the reward regions for one frame size and squad size.
#[derive(Debug, Clone, PartialEq, Eq)]
pub struct RegionGeometry {
    /// Width of one reward region.
    pub frame_width: u32,
    /// The baseline that text windows are anchored at, from the top.
    pub frame_bottom: u32,
    /// Height of one line of text.
    pub text_height: u32,
    /// Left edge of each slot's region, by slot index.
    pub offsets: Vec<u32>,
}

/// Width of one reward region: `width * 243 / 1920`.
pub open spec fn frame_width_for(width: u32) -> int {
    (width as int) * 243 / 1920
}

/// The text baseline: `height * 460 / 1080`.
pub open spec fn frame_bottom_for(height: u32) -> int {
    (height as int) * 460 / 1080
}

/// Height of a text line: `height * 24 / 1080`.
pub open spec fn text_height_for(height: u32) -> int {
    (height as int) * 24 / 1080
}

/// Left edges of the regions of a squad, placed symmetrically around the
/// middle of the frame; none for a squad size outside 1..=4.
pub open spec fn offsets_for(width: u32, squad_size: int) -> Seq<int> {
    let mid = (width as int) / 2;
    let fw = frame_width_for(width);
    if squad_size == 4 {
        seq![mid - 2 * fw, mid - fw, mid, mid + fw]
    } else if squad_size == 3 {
        seq![mid - (3 * fw) / 2, mid - fw / 2, mid + fw / 2]
    } else if squad_size == 2 {
        seq![mid - fw, mid]
    } else if squad_size == 1 {
        seq![mid - fw / 2]
    } else {
        Seq::empty()
    }
}

/// The offsets as integers.
pub open spec fn offsets_view(v: Seq<u32>) -> Seq<int> {
    v.map_values(|x: u32| x as int)
}

/// The region layout of a frame of `width` × `height` pixels for a squad of
/// `squad_size`.
pub fn region_geometry(width: u32, height: u32, squad_size: usize) -> (r: RegionGeometry)
    ensures
        r.frame_width == frame_width_for(width),
        r.frame_bottom == frame_bottom_for(height),
        r.text_height == text_height_for(height),
        offsets_view(r.offsets@) == offsets_for(width, squad_size as int),
        r.text_height * 3 <= r.frame_bottom,
        forall|k: int| 0 <= k < r.offsets@.len() ==> r.offsets@[k] + r.frame_width <= width,
{
    let w = width as u64;
    let h = height as u64;
    let fw: u64 = w * 243 / 1920;
    let fb: u64 = h * 460 / 1080;
    let th: u64 = h * 24 / 1080;
    let mid: u64 = w / 2;
    assert(fw * 1920 <= w * 243 && w * 243 < fw * 1920 + 1920) by (nonlinear_arith)
        requires
            fw == w * 243 / 1920,
    ;
    assert(fb * 1080 <= h * 460 && h * 460 < fb * 1080 + 1080) by (nonlinear_arith)
        requires
            fb == h * 460 / 1080,
    ;
    assert(th * 1080 <= h * 24 && h * 24 < th * 1080 + 1080) by (nonlinear_arith)
        requires
            th == h * 24 / 1080,
    ;
    assert(h < 45 ==> th == 0);
    let mut offsets: Vec<u32> = Vec::new();
    if squad_size == 4 {
        offsets.push((mid - 2 * fw) as u32);
        offsets.push((mid - fw) as u32);
        offsets.push(mid as u32);
        offsets.push((mid + fw) as u32);
    } else if squad_size == 3 {
        offsets.push((mid - (3 * fw) / 2) as u32);
        offsets.push((mid - fw / 2) as u32);
        offsets.push((mid + fw / 2) as u32);
    } else if squad_size == 2 {
        offsets.push((mid - fw) as u32);
        offsets.push(mid as u32);
    } else if squad_size == 1 {
        offsets.push((mid - fw / 2) as u32);
    }
    assert(offsets_view(offsets@) =~= offsets_for(width, squad_size as int));
    RegionGeometry {
        frame_width: fw as u32,
        frame_bottom: fb as u32,
        text_height: th as u32,
        offsets,
    }
}

/// For a full squad the four regions lie side by side without overlap, in
/// order from left to right, and span the middle of the frame symmetrically;
/// on any frame at least 8 pixels wide their offsets are distinct.
pub proof fn lemma_full_squad_regions(width: u32)
    ensures
        width >= 8 ==> ({
            let o = offsets_for(width, 4);
            o[0] < o[1] < o[2] < o[3]
        }),
        ({
            let o = offsets_for(width, 4);
            let fw = frame_width_for(width);
            let mid = (width as int) / 2;
            &&& o.len() == 4
            &&& o[1] == o[0] + fw
            &&& o[2] == o[1] + fw
            &&& o[3] == o[2] + fw
            &&& mid - o[0] == (o[3] + fw) - mid
        }),
{
    if width >= 8 {
        let w = width as int;
        assert(w * 243 / 1920 >= 1) by (nonlinear_arith)
            requires
                w >= 8,
        ;
    }
}

/// For every squad size the regions rise from left to right with the slot
/// index, so a snapshot in slot order reads the screen from left to right.
pub proof fn lemma_regions_left_to_right(width: u32, squad_size: int)
    ensures
        forall|k: int|
            0 <= k && k + 1 < offsets_for(width, squad_size).len() ==> #[trigger] offsets_for(
                width,
                squad_size,
            )[k] <= offsets_for(width, squad_size)[k + 1],
{
    let fw = frame_width_for(width);
    assert(fw >= 0);
    assert((3 * fw) / 2 >= fw / 2);
}

} // verus!
