use subtitle_fast::overlay::{
    apply_frame_overlay, apply_luma_highlight, block_inside_roi, clamp_bounds_to_roi,
    draw_nv12_rect_outline, fill_neutral_chroma, luma_band, LumaTargets, Nv12FrameInfo,
    OverlayOptions, RoiBounds,
};

fn rect(left: usize, top: usize, right: usize, bottom: usize) -> RoiBounds {
    RoiBounds { left, top, right, bottom }
}

fn frame(width: u32, height: u32) -> Nv12FrameInfo {
    Nv12FrameInfo { width, height, y_stride: width as usize, uv_stride: width as usize }
}

const PAINT: LumaTargets = LumaTargets { y: 255, u: 1, v: 2 };

#[test]
fn clamp_keeps_the_overlap() {
    assert_eq!(clamp_bounds_to_roi(rect(0, 0, 10, 10), rect(2, 3, 8, 9)), Some(rect(2, 3, 8, 9)));
    assert_eq!(clamp_bounds_to_roi(rect(5, 5, 12, 7), rect(2, 3, 8, 9)), Some(rect(5, 5, 8, 7)));
    assert_eq!(clamp_bounds_to_roi(rect(0, 0, 2, 2), rect(2, 3, 8, 9)), None);
}

#[test]
fn block_must_fit_frame_and_region() {
    let roi = rect(0, 0, 4, 4);
    assert!(block_inside_roi(roi, 0, 0, 4, 4));
    assert!(block_inside_roi(roi, 2, 2, 4, 4));
    assert!(!block_inside_roi(roi, 3, 0, 4, 4));
    assert!(!block_inside_roi(rect(1, 0, 4, 4), 0, 0, 4, 4));
    assert!(!block_inside_roi(roi, 2, 2, 4, 3));
}

#[test]
fn luma_band_saturates() {
    assert_eq!(luma_band(230, 12), (218, 242));
    assert_eq!(luma_band(5, 12), (0, 17));
    assert_eq!(luma_band(250, 12), (238, 255));
}

#[test]
fn highlight_paints_pixels_in_band_and_their_blocks() {
    let info = frame(4, 2);
    let mut y = vec![10, 200, 30, 40, 50, 60, 70, 220];
    let mut uv = vec![9, 9, 9, 9];
    apply_luma_highlight(&mut y, &mut uv, info, rect(0, 0, 4, 2), 190, 230, PAINT);
    assert_eq!(y, vec![10, 255, 30, 40, 50, 60, 70, 255]);
    assert_eq!(uv, vec![1, 2, 1, 2]);
}

#[test]
fn highlight_stays_inside_region() {
    let info = frame(4, 2);
    let mut y = vec![10, 200, 30, 40, 50, 60, 70, 220];
    let mut uv = vec![9, 9, 9, 9];
    apply_luma_highlight(&mut y, &mut uv, info, rect(0, 0, 2, 2), 190, 230, PAINT);
    assert_eq!(y, vec![10, 255, 30, 40, 50, 60, 70, 220]);
    assert_eq!(uv, vec![1, 2, 9, 9]);
}

#[test]
fn highlight_leaves_blocks_without_hits_alone() {
    let info = frame(4, 2);
    let mut y = vec![10, 20, 30, 40, 50, 60, 70, 80];
    let mut uv = vec![9, 9, 9, 9];
    apply_luma_highlight(&mut y, &mut uv, info, rect(0, 0, 4, 2), 190, 230, PAINT);
    assert_eq!(y, vec![10, 20, 30, 40, 50, 60, 70, 80]);
    assert_eq!(uv, vec![9, 9, 9, 9]);
}

#[test]
fn outline_paints_two_pixel_border() {
    let info = frame(8, 8);
    let mut y = vec![0u8; 64];
    let mut uv = vec![0u8; 32];
    draw_nv12_rect_outline(&mut y, &mut uv, info, rect(0, 0, 8, 8), rect(0, 0, 8, 8), PAINT);
    for row in 0..8 {
        for col in 0..8 {
            let border = row < 2 || row >= 6 || col < 2 || col >= 6;
            assert_eq!(y[row * 8 + col], if border { 255 } else { 0 }, "pixel {col},{row}");
        }
    }
    for by in 0..4 {
        for bx in 0..4 {
            let border = by == 0 || by == 3 || bx == 0 || bx == 3;
            let idx = by * 8 + bx * 2;
            assert_eq!((uv[idx], uv[idx + 1]), if border { (1, 2) } else { (0, 0) });
        }
    }
}

#[test]
fn outline_of_empty_box_paints_nothing() {
    let info = frame(8, 8);
    let mut y = vec![0u8; 64];
    let mut uv = vec![0u8; 32];
    draw_nv12_rect_outline(&mut y, &mut uv, info, rect(4, 4, 4, 8), rect(0, 0, 8, 8), PAINT);
    assert!(y.iter().all(|v| *v == 0));
    assert!(uv.iter().all(|v| *v == 0));
}

#[test]
fn neutral_chroma_fills_128() {
    let mut uv = vec![1u8, 2, 3, 4];
    fill_neutral_chroma(&mut uv);
    assert_eq!(uv, vec![128, 128, 128, 128]);
}

#[test]
fn overlay_without_region_only_greys() {
    let info = frame(4, 2);
    let mut y = vec![200u8; 8];
    let mut uv = vec![7u8; 4];
    let options = OverlayOptions { highlight: true, validator: true, grayscale: true };
    apply_frame_overlay(&mut y, &mut uv, info, None, options, 200, 10, PAINT, Some(rect(0, 0, 4, 2)));
    assert_eq!(y, vec![200u8; 8]);
    assert_eq!(uv, vec![128u8; 4]);
}

#[test]
fn overlay_of_empty_frame_changes_nothing() {
    let info = Nv12FrameInfo { width: 0, height: 2, y_stride: 0, uv_stride: 0 };
    let mut y = vec![5u8; 2];
    let mut uv = vec![7u8; 2];
    let options = OverlayOptions { highlight: true, validator: false, grayscale: true };
    apply_frame_overlay(&mut y, &mut uv, info, Some(rect(0, 0, 1, 1)), options, 5, 0, PAINT, None);
    assert_eq!(y, vec![5u8; 2]);
    assert_eq!(uv, vec![7u8; 2]);
}

#[test]
fn overlay_highlights_after_greying() {
    let info = frame(4, 2);
    let mut y = vec![10, 200, 30, 40, 50, 60, 70, 80];
    let mut uv = vec![9u8; 4];
    let options = OverlayOptions { highlight: true, validator: false, grayscale: true };
    apply_frame_overlay(&mut y, &mut uv, info, Some(rect(0, 0, 4, 2)), options, 200, 5, PAINT, None);
    assert_eq!(y, vec![10, 255, 30, 40, 50, 60, 70, 80]);
    assert_eq!(uv, vec![1, 2, 128, 128]);
}

#[test]
fn overlay_outlines_detection_only_with_validator() {
    let info = frame(8, 8);
    let options_off = OverlayOptions { highlight: false, validator: false, grayscale: false };
    let mut y = vec![0u8; 64];
    let mut uv = vec![0u8; 32];
    apply_frame_overlay(&mut y, &mut uv, info, Some(rect(0, 0, 8, 8)), options_off, 0, 0, PAINT, Some(rect(0, 0, 8, 8)));
    assert!(y.iter().all(|v| *v == 0));
    let options_on = OverlayOptions { highlight: false, validator: true, grayscale: false };
    apply_frame_overlay(&mut y, &mut uv, info, Some(rect(0, 0, 8, 8)), options_on, 0, 0, PAINT, Some(rect(0, 0, 8, 8)));
    assert_eq!(y[0], 255);
    assert_eq!(y[3 * 8 + 3], 0);
}
