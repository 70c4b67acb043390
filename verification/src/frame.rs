//! The frame orchestrators: the four entry points that combine the surface
//! cache, the batch decoder, the compositor and the dirty-region extractor.
//!
//! The compositor itself — stroke shapes, drip physics, blending — is not
//! this crate's concern: every orchestrator takes it as a function value
//! `draw` from a working pixel buffer and one surface's slice bounds to the
//! repainted buffer and the rectangle of pixels it touched.  The contracts
//! relate each orchestrator's outputs to `draw`'s own contract, whatever it
//! is.

use vstd::prelude::*;
use crate::MAX_SURFACE_DIM;
use crate::batch::Ranges;
use crate::batch::batch_wf;
use crate::batch::ranges_for;
use crate::batch::surface_ranges;
use crate::batch::validate_batch;
use crate::codec::png_decode;
use crate::codec::png_decode_of;
use crate::codec::png_of;
use crate::region::Rect;
use crate::region::packed_bytes;
use crate::surface::Caches;
use crate::surface::Letter;

verus! {

/// Everything that can make one orchestrator call fail.  A failed call never
/// leaves the surface cache partially written.
#[derive(Clone, Copy, PartialEq, Eq, Structural, Debug)]
pub enum RenderError {
    /// The supplied bytes are not a valid still image.
    InvalidImage,
    /// A cached buffer's length is neither zero nor exactly the full surface
    /// size; a configuration fault, never silently resized.
    SizeMismatch,
    /// The batch's count arrays do not cover its flat arrays exactly; a
    /// caller contract violation, reported instead of reading out of range.
    MalformedBatch,
}

/// A surface dimension the orchestrators accept.
pub open spec fn dim_ok(size: u32) -> bool {
    1 <= size <= MAX_SURFACE_DIM
}

/// Byte length of a full square RGBA buffer.
pub open spec fn full_len(size: u32) -> int {
    size as int * size as int * 4
}

/// A cached baseline is usable when it is still uninitialized (empty) or
/// holds exactly one full buffer.
pub open spec fn baseline_ok(cached: Seq<u8>, size: u32) -> bool {
    cached.len() == 0 || cached.len() == full_len(size)
}

/// The buffer a composite call starts from: the committed baseline, or a
/// fully transparent buffer where the surface is still uninitialized.
pub open spec fn baseline_seq(cached: Seq<u8>, size: u32) -> Seq<u8> {
    if cached.len() == 0 {
        Seq::new((size as int * size as int * 4) as nat, |i: int| 0u8)
    } else {
        cached
    }
}

proof fn lemma_full_len_bound(size: u32)
    by (nonlinear_arith)
    requires
        1 <= size <= 4096,
    ensures
        4 <= size as int * size as int * 4 <= 0x4000000,
{
}

/// A fully transparent working buffer for a surface not yet materialized.
fn blank_buffer(size: u32) -> (r: Vec<u8>)
    requires
        dim_ok(size),
    ensures
        r@ == Seq::new((size as int * size as int * 4) as nat, |i: int| 0u8),
{
    proof {
        lemma_full_len_bound(size);
    }
    let n: usize = (size as usize) * (size as usize) * 4;
    let mut out: Vec<u8> = Vec::new();
    let mut i: usize = 0;
    while i < n
        invariant
            0 <= i <= n,
            out@.len() == i,
            forall|j: int| 0 <= j < i ==> out@[j] == 0u8,
        decreases n - i,
    {
        out.push(0u8);
        i = i + 1;
    }
    proof {
        assert(out@ =~= Seq::new((size as int * size as int * 4) as nat, |i: int| 0u8));
    }
    out
}

/// Fetch the working copy of `letter`'s baseline: a clone of the committed
/// bytes, or a blank buffer if the surface is uninitialized.  Reports a
/// size mismatch instead of handing out a buffer of the wrong length.
fn working_copy(caches: &Caches, letter: &Letter, size: u32) -> (r: Result<Vec<u8>, RenderError>)
    requires
        dim_ok(size),
    ensures
        match r {
            Ok(buf) => {
                &&& baseline_ok(caches.spec_get(*letter), size)
                &&& buf@ == baseline_seq(caches.spec_get(*letter), size)
                &&& buf@.len() == full_len(size)
            },
            Err(e) => {
                &&& e == RenderError::SizeMismatch
                &&& !baseline_ok(caches.spec_get(*letter), size)
            },
        },
{
    proof {
        lemma_full_len_bound(size);
    }
    let cached = caches.get_data(letter);
    let full: usize = (size as usize) * (size as usize) * 4;
    if cached.len() == 0 {
        Ok(blank_buffer(size))
    } else if cached.len() == full {
        Ok(cached.clone())
    } else {
        Err(RenderError::SizeMismatch)
    }
}

/// A successful ingestion: the bytes decoded to a full-surface image whose
/// pixels are now `after`'s baseline for `letter`, and no other surface
/// moved.
pub open spec fn ingest_ok(
    before: Caches,
    after: Caches,
    letter: Letter,
    bytes: Seq<u8>,
    size: u32,
) -> bool {
    &&& png_decode_of(bytes) matches Some(d) && d.0.len() == full_len(size) && after.spec_get(
        letter,
    ) == d.0
    &&& forall|l: Letter| l != letter ==> after.spec_get(l) == before.spec_get(l)
}

/// Ingest an externally supplied still image as `letter`'s new baseline,
/// replacing any prior content whole.  Invalid bytes, and a decoded buffer
/// that is not exactly one full surface, abort the call with the cache
/// untouched: a materialized baseline is never any other size.
pub fn update_cache(caches: &mut Caches, letter: Letter, png_data: Vec<u8>, size: u32) -> (r:
    Result<(), RenderError>)
    requires
        dim_ok(size),
    ensures
        match r {
            Ok(()) => {
                &&& png_decode_of(png_data@) is Some
                &&& ingest_ok(*old(caches), *final(caches), letter, png_data@, size)
            },
            Err(e) => {
                &&& *final(caches) == *old(caches)
                &&& match e {
                    RenderError::InvalidImage => png_decode_of(png_data@) is None,
                    RenderError::SizeMismatch => png_decode_of(png_data@) matches Some(d)
                        && d.0.len() != full_len(size),
                    _ => false,
                }
            },
        },
{
    proof {
        lemma_full_len_bound(size);
    }
    let full: usize = (size as usize) * (size as usize) * 4;
    match png_decode(&png_data) {
        Ok(d) => {
            if d.0.len() != full {
                return Err(RenderError::SizeMismatch);
            }
            caches.set_data(&letter, d.0);
            Ok(())
        },
        Err(e) => Err(e),
    }
}

/// One packed region of freshly composited pixels, ready for the
/// presentation sink: the bytes inside the changed rectangle, and where on
/// the target they belong.
pub struct Patch {
    pub pixels: Vec<u8>,
    pub x0: u32,
    pub y0: u32,
    pub width: u32,
    pub height: u32,
}

/// The compositor accepts every full-sized working buffer, whatever slice
/// bounds come with it.
pub open spec fn draw_callable<F: Fn(Vec<u8>, Ranges) -> (Vec<u8>, Rect)>(
    draw: F,
    size: u32,
) -> bool {
    forall|b: Vec<u8>, rg: Ranges|
        b@.len() == full_len(size) ==> #[trigger] call_requires(draw, (b, rg))
}

/// The compositor repaints in place: whatever it returns is as long as the
/// buffer it was given.
pub open spec fn draw_preserves_len<F: Fn(Vec<u8>, Ranges) -> (Vec<u8>, Rect)>(draw: F) -> bool {
    forall|args: (Vec<u8>, Ranges), out: (Vec<u8>, Rect)|
        #[trigger] call_ensures(draw, args, out) ==> out.0@.len() == args.0@.len()
}

/// The rectangle the compositor reports never reaches outside the surface.
pub open spec fn draw_rect_bounded<F: Fn(Vec<u8>, Ranges) -> (Vec<u8>, Rect)>(
    draw: F,
    size: u32,
) -> bool {
    forall|args: (Vec<u8>, Ranges), out: (Vec<u8>, Rect)|
        #[trigger] call_ensures(draw, args, out) ==> out.1.x1 <= size && out.1.y1 <= size
}

/// The slice bounds handed to the compositor on a single-surface path: the
/// batch covers one surface whole.
pub open spec fn single_ranges(point_count: usize, splatter_total: usize) -> Ranges {
    Ranges { point_start: 0, point_end: point_count, splatter_start: 0, splatter_end: splatter_total }
}

/// Idempotent ingestion law.  Ingesting the same encoded image succeeds or
/// fails the same way each time, and two successful ingestions of the same
/// bytes leave the surface with identical baseline bytes, whatever the cache
/// held before either call.
pub proof fn lemma_ingest_idempotent(
    before1: Caches,
    after1: Caches,
    before2: Caches,
    after2: Caches,
    letter: Letter,
    bytes: Seq<u8>,
    size: u32,
)
    requires
        ingest_ok(before1, after1, letter, bytes, size),
        ingest_ok(before2, after2, letter, bytes, size),
    ensures
        after1.spec_get(letter) == after2.spec_get(letter),
{
}

/// Bake one surface's full batch into a still image, without touching the
/// cache: composite onto the committed baseline (or a blank buffer where the
/// surface is uninitialized) and encode the result losslessly.  Intended for
/// offline generation of baseline snapshots.
pub fn draw_buffer_png<F: Fn(Vec<u8>, Ranges) -> (Vec<u8>, Rect)>(
    caches: &Caches,
    letter: Letter,
    size: u32,
    point_count: usize,
    splatter_total: usize,
    draw: F,
) -> (r: Result<Vec<u8>, RenderError>)
    requires
        dim_ok(size),
        draw_callable(draw, size),
        draw_preserves_len(draw),
    ensures
        match r {
            Ok(png) => {
                &&& baseline_ok(caches.spec_get(letter), size)
                &&& exists|b: Vec<u8>, out: Vec<u8>, rect: Rect|
                    {
                        &&& b@ == baseline_seq(caches.spec_get(letter), size)
                        &&& #[trigger] call_ensures(
                            draw,
                            (b, single_ranges(point_count, splatter_total)),
                            (out, rect),
                        )
                        &&& png@ == png_of(out@, size, size)
                        &&& png_decode_of(png@) == Some((out@, size, size))
                    }
            },
            Err(e) => {
                &&& e == RenderError::SizeMismatch
                &&& !baseline_ok(caches.spec_get(letter), size)
            },
        },
{
    let buf = match working_copy(caches, &letter, size) {
        Ok(b) => b,
        Err(e) => {
            return Err(e);
        },
    };
    let rgs = Ranges {
        point_start: 0,
        point_end: point_count,
        splatter_start: 0,
        splatter_end: splatter_total,
    };
    let ghost b0 = buf;
    let (out, rect) = draw(buf, rgs);
    proof {
        lemma_full_len_bound(size);
    }
    let png = crate::codec::png_encode(&out, size, size);
    proof {
        assert(call_ensures(draw, (b0, single_ranges(point_count, splatter_total)), (out, rect)));
    }
    Ok(png)
}

/// The single-surface interactive path: composite the surface's full batch
/// onto its baseline (or blank), hand the caller the full resulting image
/// for presentation, and persist that same image as the new committed
/// baseline.  The returned patch covers the whole surface.
pub fn add_points_to_cache<F: Fn(Vec<u8>, Ranges) -> (Vec<u8>, Rect)>(
    caches: &mut Caches,
    letter: Letter,
    size: u32,
    point_count: usize,
    splatter_total: usize,
    draw: F,
) -> (r: Result<Patch, RenderError>)
    requires
        dim_ok(size),
        draw_callable(draw, size),
        draw_preserves_len(draw),
    ensures
        match r {
            Ok(p) => {
                &&& baseline_ok(old(caches).spec_get(letter), size)
                &&& exists|b: Vec<u8>, out: Vec<u8>, rect: Rect|
                    {
                        &&& b@ == baseline_seq(old(caches).spec_get(letter), size)
                        &&& #[trigger] call_ensures(
                            draw,
                            (b, single_ranges(point_count, splatter_total)),
                            (out, rect),
                        )
                        &&& final(caches).spec_get(letter) == out@
                        &&& p.pixels@ == out@
                    }
                &&& p.x0 == 0 && p.y0 == 0 && p.width == size && p.height == size
                &&& p.pixels@.len() == full_len(size)
                &&& forall|l: Letter|
                    l != letter ==> final(caches).spec_get(l) == old(caches).spec_get(l)
            },
            Err(e) => {
                &&& e == RenderError::SizeMismatch
                &&& !baseline_ok(old(caches).spec_get(letter), size)
                &&& *final(caches) == *old(caches)
            },
        },
{
    let buf = match working_copy(caches, &letter, size) {
        Ok(b) => b,
        Err(e) => {
            return Err(e);
        },
    };
    let rgs = Ranges {
        point_start: 0,
        point_end: point_count,
        splatter_start: 0,
        splatter_end: splatter_total,
    };
    let ghost b0 = buf;
    let (out, rect) = draw(buf, rgs);
    let pixels = out.clone();
    let ghost out0 = out;
    caches.set_data(&letter, out);
    proof {
        assert(call_ensures(draw, (b0, single_ranges(point_count, splatter_total)), (out0, rect)));
    }
    Ok(Patch { pixels, x0: 0, y0: 0, width: size, height: size })
}

/// One full account of surface `k`'s share of a frame composite: the working
/// buffer the compositor started from, the slice bounds it was given, and
/// what it returned.
pub open spec fn patch_witness<F: Fn(Vec<u8>, Ranges) -> (Vec<u8>, Rect)>(
    draw: F,
    cached: Seq<u8>,
    size: u32,
    pc: Seq<usize>,
    sc: Seq<usize>,
    k: int,
    p: Option<Patch>,
    b: Vec<u8>,
    rgs: Ranges,
    out: Vec<u8>,
    rect: Rect,
) -> bool {
    &&& b@ == baseline_seq(cached, size)
    &&& ranges_for(pc, sc, k, rgs)
    &&& call_ensures(draw, (b, rgs), (out, rect))
    &&& match p {
        Some(patch) => {
            &&& !rect.spec_is_empty()
            &&& patch.pixels@ == packed_bytes(out@, size as int, 4, rect)
            &&& patch.pixels@.len() > 0
            &&& patch.x0 == rect.x0 && patch.y0 == rect.y0
            &&& patch.width == rect.spec_width() && patch.height == rect.spec_height()
        },
        None => rect.spec_is_empty(),
    }
}

/// Surface `k`'s part of a frame composite happened as the live path
/// promises: the compositor ran once on the surface's baseline-or-blank with
/// the surface's own slice of the batch, and `p` presents exactly the pixels
/// inside the rectangle it touched — or nothing, when it touched none.
pub open spec fn surface_patch_ok<F: Fn(Vec<u8>, Ranges) -> (Vec<u8>, Rect)>(
    draw: F,
    cached: Seq<u8>,
    size: u32,
    pc: Seq<usize>,
    sc: Seq<usize>,
    k: int,
    p: Option<Patch>,
) -> bool {
    exists|b: Vec<u8>, rgs: Ranges, out: Vec<u8>, rect: Rect|
        #[trigger] patch_witness(draw, cached, size, pc, sc, k, p, b, rgs, out, rect)
}

/// The multi-surface live path: decode the combined batch into five
/// per-surface slices, composite each against its committed baseline (or
/// blank) read-only, and return each surface's changed region packed for
/// presentation — `None` where nothing changed, so the sink is not called
/// for a phantom update.  The cache is borrowed shared: this path can never
/// write a composite back, which keeps baselines stable while strokes are
/// still animating.
pub fn draw_buffers<F: Fn(Vec<u8>, Ranges) -> (Vec<u8>, Rect)>(
    caches: &Caches,
    size: u32,
    point_counts: &Vec<usize>,
    splatter_counts: &Vec<usize>,
    splatter_total: usize,
    draw: F,
) -> (r: Result<Vec<Option<Patch>>, RenderError>)
    requires
        dim_ok(size),
        draw_callable(draw, size),
        draw_preserves_len(draw),
        draw_rect_bounded(draw, size),
    ensures
        match r {
            Ok(patches) => {
                &&& batch_wf(point_counts@, splatter_counts@, splatter_total as int)
                &&& patches@.len() == 5
                &&& forall|k: int|
                    0 <= k < 5 ==> baseline_ok(
                        caches.spec_get(#[trigger] Letter::spec_at(k)),
                        size,
                    )
                &&& forall|k: int|
                    0 <= k < 5 ==> #[trigger] surface_patch_ok(
                        draw,
                        caches.spec_get(Letter::spec_at(k)),
                        size,
                        point_counts@,
                        splatter_counts@,
                        k,
                        patches@[k],
                    )
            },
            Err(e) => {
                ||| {
                    &&& e == RenderError::MalformedBatch
                    &&& !batch_wf(point_counts@, splatter_counts@, splatter_total as int)
                }
                ||| {
                    &&& e == RenderError::SizeMismatch
                    &&& exists|k: int|
                        0 <= k < 5 && !baseline_ok(
                            caches.spec_get(#[trigger] Letter::spec_at(k)),
                            size,
                        )
                }
            },
        },
{
    if !validate_batch(point_counts, splatter_counts, splatter_total) {
        return Err(RenderError::MalformedBatch);
    }
    let mut patches: Vec<Option<Patch>> = Vec::new();
    let mut k: usize = 0;
    while k < 5
        invariant
            0 <= k <= 5,
            dim_ok(size),
            draw_callable(draw, size),
            draw_preserves_len(draw),
            draw_rect_bounded(draw, size),
            batch_wf(point_counts@, splatter_counts@, splatter_total as int),
            patches@.len() == k,
            forall|j: int|
                0 <= j < k ==> baseline_ok(caches.spec_get(#[trigger] Letter::spec_at(j)), size),
            forall|j: int|
                0 <= j < k ==> #[trigger] surface_patch_ok(
                    draw,
                    caches.spec_get(Letter::spec_at(j)),
                    size,
                    point_counts@,
                    splatter_counts@,
                    j,
                    patches@[j],
                ),
        decreases 5 - k,
    {
        let letter = Letter::at_index(k);
        let buf = match working_copy(caches, &letter, size) {
            Ok(b) => b,
            Err(e) => {
                proof {
                    assert(!baseline_ok(caches.spec_get(Letter::spec_at(k as int)), size));
                }
                return Err(e);
            },
        };
        let rgs = surface_ranges(point_counts, splatter_counts, k);
        let ghost b0 = buf;
        let (out, rect) = draw(buf, rgs);
        proof {
            lemma_full_len_bound(size);
            assert((rect.y1 as int) * (size as int) * 4 <= (size as int) * (size as int) * 4)
                by (nonlinear_arith)
                requires
                    rect.y1 <= size,
            ;
        }
        let (pixels, rows) = rect.pixel_range(&out, size as usize, 4);
        let ghost out0 = out;
        let entry: Option<Patch> = if pixels.len() > 0 {
            let rect_width = rect.width();
            Some(Patch { pixels, x0: rect.x0, y0: rect.y0, width: rect_width, height: rows })
        } else {
            None
        };
        proof {
            assert(patch_witness(
                draw,
                caches.spec_get(Letter::spec_at(k as int)),
                size,
                point_counts@,
                splatter_counts@,
                k as int,
                entry,
                b0,
                rgs,
                out0,
                rect,
            ));
        }
        patches.push(entry);
        k = k + 1;
    }
    Ok(patches)
}

/// Degenerate-surface law, presentation half.  With a compositor that
/// reports an empty rectangle whenever its point range is empty, a surface
/// whose point count is zero presents nothing on the live path.  (The range
/// half — a zero count forces empty point and splatter ranges — is
/// `crate::batch::lemma_degenerate_surface`.)
pub proof fn lemma_degenerate_presents_nothing<F: Fn(Vec<u8>, Ranges) -> (Vec<u8>, Rect)>(
    draw: F,
    cached: Seq<u8>,
    size: u32,
    pc: Seq<usize>,
    sc: Seq<usize>,
    k: int,
    p: Option<Patch>,
)
    requires
        forall|args: (Vec<u8>, Ranges), out: (Vec<u8>, Rect)|
            #[trigger] call_ensures(draw, args, out) && args.1.point_start == args.1.point_end
                ==> out.1.spec_is_empty(),
        surface_patch_ok(draw, cached, size, pc, sc, k, p),
        0 <= k < pc.len(),
        pc[k] == 0,
    ensures
        p is None,
{
    crate::batch::lemma_degenerate_surface(pc, sc, k);
    let (b, rgs, out, rect) = choose|b: Vec<u8>, rgs: Ranges, out: Vec<u8>, rect: Rect|
        #[trigger] patch_witness(draw, cached, size, pc, sc, k, p, b, rgs, out, rect);
    assert(rgs.point_start == rgs.point_end);
    assert(rect.spec_is_empty());
}

/// Frame-replay law.  The live path hides no state: with a compositor whose
/// outputs are a function of its input values, composing the same caches
/// with the same batch twice yields patch-for-patch identical presentation
/// payloads.
pub proof fn lemma_frame_replay<F: Fn(Vec<u8>, Ranges) -> (Vec<u8>, Rect)>(
    draw: F,
    cached: Seq<u8>,
    size: u32,
    pc: Seq<usize>,
    sc: Seq<usize>,
    k: int,
    p1: Option<Patch>,
    p2: Option<Patch>,
)
    requires
        forall|
            a1: (Vec<u8>, Ranges),
            a2: (Vec<u8>, Ranges),
            o1: (Vec<u8>, Rect),
            o2: (Vec<u8>, Rect),
        |
            #[trigger] call_ensures(draw, a1, o1) && #[trigger] call_ensures(draw, a2, o2)
                && a1.0@ == a2.0@ && a1.1 == a2.1 ==> o1.0@ == o2.0@ && o1.1 == o2.1,
        surface_patch_ok(draw, cached, size, pc, sc, k, p1),
        surface_patch_ok(draw, cached, size, pc, sc, k, p2),
    ensures
        match (p1, p2) {
            (Some(q1), Some(q2)) => {
                &&& q1.pixels@ == q2.pixels@
                &&& q1.x0 == q2.x0 && q1.y0 == q2.y0
                &&& q1.width == q2.width && q1.height == q2.height
            },
            (None, None) => true,
            _ => false,
        },
{
    let (b1, rgs1, out1, rect1) = choose|b: Vec<u8>, rgs: Ranges, out: Vec<u8>, rect: Rect|
        #[trigger] patch_witness(draw, cached, size, pc, sc, k, p1, b, rgs, out, rect);
    let (b2, rgs2, out2, rect2) = choose|b: Vec<u8>, rgs: Ranges, out: Vec<u8>, rect: Rect|
        #[trigger] patch_witness(draw, cached, size, pc, sc, k, p2, b, rgs, out, rect);
    assert(rgs1 == rgs2);
    assert(out1@ == out2@ && rect1 == rect2);
    assert(packed_bytes(out1@, size as int, 4, rect1) == packed_bytes(out2@, size as int, 4, rect2));
}

} // verus!
