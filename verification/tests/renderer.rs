//! End-to-end tests for the renderer core, run against the real codec.

use alive_renderer::batch::{surface_ranges, validate_batch};
use alive_renderer::codec::encode_decode_round_trip;
use alive_renderer::frame::{add_points_to_cache, draw_buffer_png, draw_buffers, update_cache};
use alive_renderer::{Caches, Letter, Patch, Ranges, Rect, RenderError};

const SIZE: u32 = 4;
const FULL: usize = (SIZE as usize) * (SIZE as usize) * 4;

/// A compositor stand-in: paints one opaque red pixel per point of the
/// surface's range at deterministic positions, and reports the bounding
/// rectangle of what it touched.  With an empty point range it touches
/// nothing and reports an empty rectangle.
fn paint_points(mut buf: Vec<u8>, rgs: Ranges) -> (Vec<u8>, Rect) {
    let n = rgs.point_end - rgs.point_start;
    if n == 0 {
        return (buf, Rect { x0: 0, y0: 0, x1: 0, y1: 0 });
    }
    let mut max_x: u32 = 0;
    for i in 0..n {
        let x = (i as u32) % SIZE;
        let idx = (x as usize) * 4;
        buf[idx] = 255;
        buf[idx + 3] = 255;
        if x > max_x {
            max_x = x;
        }
    }
    (buf, Rect { x0: 0, y0: 0, x1: max_x + 1, y1: 1 })
}

/// A compositor stand-in that touches nothing at all.
fn paint_nothing(buf: Vec<u8>, _rgs: Ranges) -> (Vec<u8>, Rect) {
    (buf, Rect { x0: 0, y0: 0, x1: 0, y1: 0 })
}

fn single_point_batch() -> (Vec<usize>, Vec<usize>) {
    // 1 point on surface A, none elsewhere; the point has no splatters.
    (vec![1, 0, 0, 0, 0], vec![0])
}

#[test]
fn round_trip_preserves_pixels() {
    let mut pixels = Vec::new();
    for i in 0..FULL {
        pixels.push((i % 251) as u8);
    }
    let back = encode_decode_round_trip(&pixels, SIZE, SIZE);
    assert_eq!(back, pixels);
}

#[test]
fn ingest_is_idempotent() {
    let mut caches = Caches::new();
    // Bake a PNG of a blank surface with one painted pixel to ingest.
    let png = draw_buffer_png(&caches, Letter::A, SIZE, 1, 0, paint_points).unwrap();
    update_cache(&mut caches, Letter::I, png.clone(), SIZE).unwrap();
    let first = caches.get_data(&Letter::I).clone();
    update_cache(&mut caches, Letter::I, png, SIZE).unwrap();
    let second = caches.get_data(&Letter::I).clone();
    assert_eq!(first, second);
    assert_eq!(first.len(), FULL);
}

#[test]
fn ingest_rejects_invalid_bytes_and_keeps_cache() {
    let mut caches = Caches::new();
    let r = update_cache(&mut caches, Letter::A, vec![1, 2, 3, 4], SIZE);
    assert_eq!(r, Err(RenderError::InvalidImage));
    assert_eq!(caches.get_data(&Letter::A).len(), 0);
}

#[test]
fn ingest_rejects_wrong_size_image_and_keeps_cache() {
    let mut caches = Caches::new();
    // a valid still image, but of a 2x2 surface, not the 4x4 one
    let small = draw_buffer_png(&caches, Letter::A, 2, 0, 0, paint_nothing).unwrap();
    let r = update_cache(&mut caches, Letter::A, small, SIZE);
    assert_eq!(r, Err(RenderError::SizeMismatch));
    assert_eq!(caches.get_data(&Letter::A).len(), 0);
}

#[test]
fn batch_validation() {
    // counts: A=1, L=0, I=2, V=0, E=0; splatters per point: [2, 0, 3]
    let pc: Vec<usize> = vec![1, 0, 2, 0, 0];
    let sc: Vec<usize> = vec![2, 0, 3];
    assert!(validate_batch(&pc, &sc, 5));
    assert!(!validate_batch(&pc, &sc, 4));
    assert!(!validate_batch(&vec![1, 0, 2, 0], &sc, 5));
    assert!(!validate_batch(&vec![1, 0, 2, 0, 1], &sc, 5));
}

#[test]
fn ranges_partition_the_batch() {
    let pc: Vec<usize> = vec![1, 0, 2, 0, 0];
    let sc: Vec<usize> = vec![2, 0, 3];
    let r0 = surface_ranges(&pc, &sc, 0);
    let r1 = surface_ranges(&pc, &sc, 1);
    let r2 = surface_ranges(&pc, &sc, 2);
    let r3 = surface_ranges(&pc, &sc, 3);
    let r4 = surface_ranges(&pc, &sc, 4);
    assert_eq!((r0.point_start, r0.point_end, r0.splatter_start, r0.splatter_end), (0, 1, 0, 2));
    assert_eq!((r1.point_start, r1.point_end, r1.splatter_start, r1.splatter_end), (1, 1, 2, 2));
    assert_eq!((r2.point_start, r2.point_end, r2.splatter_start, r2.splatter_end), (1, 3, 2, 5));
    assert_eq!((r3.point_start, r3.point_end, r3.splatter_start, r3.splatter_end), (3, 3, 5, 5));
    assert_eq!((r4.point_start, r4.point_end, r4.splatter_start, r4.splatter_end), (3, 3, 5, 5));
    // contiguous cover of both global arrays
    assert_eq!(r0.point_start, 0);
    assert_eq!(r0.point_end, r1.point_start);
    assert_eq!(r1.point_end, r2.point_start);
    assert_eq!(r2.point_end, r3.point_start);
    assert_eq!(r3.point_end, r4.point_start);
    assert_eq!(r4.point_end, sc.len());
    assert_eq!(r0.splatter_start, 0);
    assert_eq!(r4.splatter_end, 5);
}

#[test]
fn degenerate_surface_has_empty_ranges() {
    let pc: Vec<usize> = vec![1, 0, 2, 0, 0];
    let sc: Vec<usize> = vec![2, 0, 3];
    let r1 = surface_ranges(&pc, &sc, 1);
    assert_eq!(r1.point_start, r1.point_end);
    assert_eq!(r1.splatter_start, r1.splatter_end);
}

#[test]
fn pixel_range_packs_rows() {
    // a 2x2 buffer, 1 byte per pixel: the right column is [20, 40]
    let buf: Vec<u8> = vec![10, 20, 30, 40];
    let r = Rect { x0: 1, y0: 0, x1: 2, y1: 2 };
    let (packed, rows) = r.pixel_range(&buf, 2, 1);
    assert_eq!(rows, 2);
    assert_eq!(packed, vec![20, 40]);
}

#[test]
fn pixel_range_of_empty_rect_is_empty() {
    let buf: Vec<u8> = vec![10, 20, 30, 40];
    let r = Rect { x0: 1, y0: 1, x1: 1, y1: 2 };
    let (packed, rows) = r.pixel_range(&buf, 2, 1);
    assert_eq!(rows, 0);
    assert!(packed.is_empty());
}

#[test]
fn persist_path_writes_back_and_presents_full_surface() {
    // One point for surface A, nothing for the other four; baseline blank.
    let mut caches = Caches::new();
    let patch = add_points_to_cache(&mut caches, Letter::A, SIZE, 1, 0, paint_points).unwrap();
    assert_eq!((patch.x0, patch.y0, patch.width, patch.height), (0, 0, SIZE, SIZE));
    assert_eq!(patch.pixels.len(), FULL);
    let cached = caches.get_data(&Letter::A);
    assert_eq!(cached.len(), FULL);
    assert_eq!(*cached, patch.pixels);
    assert_eq!(cached[0], 255);
    for l in [Letter::L, Letter::I, Letter::V, Letter::E] {
        assert_eq!(caches.get_data(&l).len(), 0);
    }
}

#[test]
fn live_path_never_writes_back() {
    let mut caches = Caches::new();
    // materialize one baseline first through the persist path
    add_points_to_cache(&mut caches, Letter::A, SIZE, 1, 0, paint_points).unwrap();
    let before: Vec<Vec<u8>> = [Letter::A, Letter::L, Letter::I, Letter::V, Letter::E]
        .iter()
        .map(|l| caches.get_data(l).clone())
        .collect();
    let (pc, sc) = single_point_batch();
    draw_buffers(&caches, SIZE, &pc, &sc, 0, paint_points).unwrap();
    let after: Vec<Vec<u8>> = [Letter::A, Letter::L, Letter::I, Letter::V, Letter::E]
        .iter()
        .map(|l| caches.get_data(l).clone())
        .collect();
    assert_eq!(before, after);
}

#[test]
fn live_path_presents_only_changed_regions() {
    let caches = Caches::new();
    let (pc, sc) = single_point_batch();
    let patches = draw_buffers(&caches, SIZE, &pc, &sc, 0, paint_points).unwrap();
    assert_eq!(patches.len(), 5);
    // surface A got one point painted at (0, 0): a 1x1 patch
    let a = patches[0].as_ref().unwrap();
    assert_eq!((a.x0, a.y0, a.width, a.height), (0, 0, 1, 1));
    assert_eq!(a.pixels, vec![255, 0, 0, 255]);
    // the other four surfaces had no points and present nothing
    for p in &patches[1..] {
        assert!(p.is_none());
    }
}

#[test]
fn live_path_is_replayable() {
    let mut caches = Caches::new();
    add_points_to_cache(&mut caches, Letter::A, SIZE, 2, 0, paint_points).unwrap();
    let pc: Vec<usize> = vec![2, 0, 1, 0, 0];
    let sc: Vec<usize> = vec![0, 0, 0];
    let first = draw_buffers(&caches, SIZE, &pc, &sc, 0, paint_points).unwrap();
    let second = draw_buffers(&caches, SIZE, &pc, &sc, 0, paint_points).unwrap();
    assert_eq!(first.len(), second.len());
    for (p, q) in first.iter().zip(second.iter()) {
        match (p, q) {
            (Some(p), Some(q)) => {
                assert_eq!(p.pixels, q.pixels);
                assert_eq!((p.x0, p.y0, p.width, p.height), (q.x0, q.y0, q.width, q.height));
            }
            (None, None) => {}
            _ => panic!("the two frames presented different surfaces"),
        }
    }
}

#[test]
fn live_path_rejects_malformed_batch() {
    let caches = Caches::new();
    // point counts say 2 points but the splatter count array has 1 entry
    let pc: Vec<usize> = vec![2, 0, 0, 0, 0];
    let sc: Vec<usize> = vec![0];
    let r = draw_buffers(&caches, SIZE, &pc, &sc, 0, paint_nothing);
    assert_eq!(r.err(), Some(RenderError::MalformedBatch));
}

#[test]
fn size_mismatch_is_fatal_to_the_call() {
    let mut caches = Caches::new();
    // a cached buffer that is neither empty nor a full surface
    caches.set_data(&Letter::A, vec![1, 2, 3]);
    let r = add_points_to_cache(&mut caches, Letter::A, SIZE, 0, 0, paint_nothing);
    assert_eq!(r.err(), Some(RenderError::SizeMismatch));
    // the bad buffer was not touched by the failed call
    assert_eq!(*caches.get_data(&Letter::A), vec![1, 2, 3]);
    let (pc, sc) = single_point_batch();
    let r2 = draw_buffers(&caches, SIZE, &pc, &sc, 0, paint_nothing);
    assert_eq!(r2.err(), Some(RenderError::SizeMismatch));
}

#[test]
fn bake_to_file_leaves_cache_alone_and_round_trips() {
    let mut caches = Caches::new();
    let png = draw_buffer_png(&caches, Letter::V, SIZE, 1, 0, paint_points).unwrap();
    for l in [Letter::A, Letter::L, Letter::I, Letter::V, Letter::E] {
        assert_eq!(caches.get_data(&l).len(), 0);
    }
    // ingesting the baked image materializes exactly the composited pixels
    update_cache(&mut caches, Letter::V, png, SIZE).unwrap();
    let cached = caches.get_data(&Letter::V);
    assert_eq!(cached.len(), FULL);
    assert_eq!(cached[0], 255);
    assert_eq!(cached[3], 255);
    assert_eq!(cached[4], 0);
}

#[test]
fn letter_indexing_is_fixed() {
    let letters = [Letter::A, Letter::L, Letter::I, Letter::V, Letter::E];
    for (i, l) in letters.iter().enumerate() {
        assert_eq!(l.index(), i);
        assert_eq!(Letter::at_index(i), *l);
    }
}

#[test]
fn patch_type_carries_placement() {
    let p = Patch { pixels: vec![0, 0, 0, 0], x0: 2, y0: 3, width: 1, height: 1 };
    assert_eq!((p.x0, p.y0), (2, 3));
    assert_eq!(p.pixels.len(), 4);
}
