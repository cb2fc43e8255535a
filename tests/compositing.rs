use radar_echo_trails::blend::{blend_pixel, fade_alpha, overlay_current, overlay_luminance, overlay_tinted};
use radar_echo_trails::cache::{apply_limit, CacheError, FrameCache};
use radar_echo_trails::canvas::{Canvas, Pixel};
use radar_echo_trails::color::Color;
use radar_echo_trails::engine::{composite, history_window, CompositeParams};
use radar_echo_trails::scheduler::composite_all;

const BLACK: Color = Color { r: 0, g: 0, b: 0 };
const GREEN: Color = Color { r: 0, g: 255, b: 0 };
const ORANGE: Color = Color { r: 255, g: 127, b: 0 };

fn px(r: u8, g: u8, b: u8, a: u8) -> Pixel {
    Pixel { r, g, b, a }
}

fn solid(w: u32, h: u32, p: Pixel) -> Canvas {
    Canvas::from_pixels(w, h, vec![p; (w * h) as usize]).unwrap()
}

fn params(h: usize) -> CompositeParams {
    CompositeParams { history_length: h, background: BLACK, current_color: GREEN, history_color: ORANGE }
}

#[test]
fn blend_half_orange_over_black() {
    let mut d = px(0, 0, 0, 255);
    blend_pixel(&mut d, px(255, 127, 0, 128));
    assert_eq!(d, px(128, 64, 0, 255));
}

#[test]
fn blend_opaque_replaces() {
    let mut d = px(10, 20, 30, 40);
    blend_pixel(&mut d, px(0, 255, 0, 255));
    assert_eq!(d, px(0, 255, 0, 255));
}

#[test]
fn blend_onto_transparent() {
    let mut d = px(10, 20, 30, 0);
    blend_pixel(&mut d, px(0, 0, 0, 0));
    assert_eq!(d, px(0, 0, 0, 0));
    let mut e = px(0, 0, 0, 0);
    blend_pixel(&mut e, px(200, 100, 50, 100));
    assert_eq!(e, px(200, 100, 50, 100));
}

#[test]
fn fade_alpha_values() {
    assert_eq!(fade_alpha(255, 1, 2), 128);
    assert_eq!(fade_alpha(255, 2, 2), 0);
    assert_eq!(fade_alpha(255, 3, 2), 0);
    assert_eq!(fade_alpha(255, 1, 5), 204);
    assert_eq!(fade_alpha(100, 2, 5), 60);
    assert_eq!(fade_alpha(0, 1, 5), 0);
    assert_eq!(fade_alpha(255, 1, 1), 0);
}

#[test]
fn fade_is_monotone_in_recency() {
    let h = 6;
    let mut prev = 255u8;
    for age in 1..=h {
        let a = fade_alpha(255, age, h);
        assert!(a <= prev);
        prev = a;
    }
    assert_eq!(fade_alpha(255, h, h), 0);
    assert!(fade_alpha(255, h - 1, h) > 0);
}

#[test]
fn window_sizes() {
    assert_eq!(history_window(0, 3), (0, 0));
    assert_eq!(history_window(1, 2), (0, 1));
    assert_eq!(history_window(2, 2), (0, 2));
    assert_eq!(history_window(5, 2), (3, 5));
    assert_eq!(history_window(4, 10), (0, 4));
}

#[test]
fn white_frames_scenario() {
    let white = solid(2, 2, px(255, 255, 255, 255));
    let cache = FrameCache::load(vec![white.clone(), white.clone(), white]).ok().unwrap();
    for i in 0..3 {
        let out = composite(i, &cache, &params(2));
        assert_eq!((out.width, out.height), (2, 2));
        assert_eq!(out.pixels, vec![px(0, 255, 0, 255); 4]);
    }
    let again = composite(2, &cache, &params(2));
    assert_eq!(again.pixels, composite(2, &cache, &params(2)).pixels);
}

#[test]
fn history_shows_where_current_is_empty() {
    let on = px(255, 255, 255, 255);
    let off = px(0, 0, 0, 0);
    let f0 = Canvas::from_pixels(2, 1, vec![on, off]).unwrap();
    let f1 = Canvas::from_pixels(2, 1, vec![off, off]).unwrap();
    let f2 = Canvas::from_pixels(2, 1, vec![off, on]).unwrap();
    let cache = FrameCache::load(vec![f0, f1, f2]).ok().unwrap();
    let out0 = composite(0, &cache, &params(2));
    assert_eq!(out0.pixels, vec![px(0, 255, 0, 255), px(0, 0, 0, 255)]);
    let out1 = composite(1, &cache, &params(2));
    assert_eq!(out1.pixels, vec![px(128, 64, 0, 255), px(0, 0, 0, 255)]);
    // frame 0 has age 2 here, weight 0: it adds nothing
    let out2 = composite(2, &cache, &params(2));
    assert_eq!(out2.pixels, vec![px(0, 0, 0, 255), px(0, 255, 0, 255)]);
}

#[test]
fn first_frame_ignores_history_length() {
    let f0 = Canvas::from_pixels(2, 1, vec![px(9, 9, 9, 7), px(0, 0, 0, 0)]).unwrap();
    let f1 = solid(2, 1, px(255, 255, 255, 255));
    let cache = FrameCache::load(vec![f0, f1]).ok().unwrap();
    for h in 1..5 {
        let out = composite(0, &cache, &params(h));
        assert_eq!(out.pixels, vec![px(0, 255, 0, 255), px(0, 0, 0, 255)]);
    }
}

#[test]
fn schedules_give_identical_outputs() {
    let mut frames = Vec::new();
    for k in 0..7u8 {
        let pixels: Vec<Pixel> = (0..6u8).map(|p| px(p * 40, k * 30, 7, if (p + k) % 3 == 0 { 0 } else { 90 + p * 20 })).collect();
        frames.push(Canvas::from_pixels(3, 2, pixels).unwrap());
    }
    let cache = FrameCache::load(frames).ok().unwrap();
    let p = params(3);
    let one = composite_all(&cache, &p, 1);
    for workers in [2usize, 3, 4, 8] {
        let many = composite_all(&cache, &p, workers);
        assert_eq!(one.len(), many.len());
        for (a, b) in one.iter().zip(many.iter()) {
            assert_eq!(a.pixels, b.pixels);
            assert_eq!((a.width, a.height), (b.width, b.height));
        }
    }
    for i in 0..7 {
        assert_eq!(one[i].pixels, composite(i, &cache, &p).pixels);
    }
}

#[test]
fn cache_rejects_mismatched_sizes() {
    let a = solid(2, 2, px(1, 1, 1, 1));
    let b = solid(2, 2, px(1, 1, 1, 1));
    let c = solid(3, 2, px(1, 1, 1, 1));
    let d = solid(1, 1, px(1, 1, 1, 1));
    match FrameCache::load(vec![a, b, c, d]) {
        Err(e) => assert_eq!(e, CacheError::DimensionMismatch { index: 2 }),
        Ok(_) => panic!("mismatched frames were accepted"),
    }
}

#[test]
fn cache_rejects_empty_folder() {
    match FrameCache::load(Vec::new()) {
        Err(e) => assert_eq!(e, CacheError::Empty),
        Ok(_) => panic!("an empty folder was accepted"),
    }
}

#[test]
fn canvas_shape() {
    assert!(Canvas::from_pixels(2, 3, vec![px(0, 0, 0, 0); 5]).is_none());
    let c = Canvas::from_pixels(2, 3, (0..6u8).map(|i| px(i, 0, 0, 0)).collect()).unwrap();
    assert_eq!(c.get_pixel(1, 2), px(5, 0, 0, 0));
    assert_eq!(c.get_pixel(0, 1), px(2, 0, 0, 0));
    let f = Canvas::filled_like(&c, px(1, 2, 3, 4));
    assert_eq!((f.width, f.height), (2, 3));
    assert_eq!(f.pixels, vec![px(1, 2, 3, 4); 6]);
}

#[test]
fn limits_frames() {
    assert_eq!(apply_limit(vec![1, 2, 3, 4], Some(2)), vec![1, 2]);
    assert_eq!(apply_limit(vec![1, 2, 3], Some(5)), vec![1, 2, 3]);
    assert_eq!(apply_limit(vec![1, 2, 3], None), vec![1, 2, 3]);
    assert_eq!(apply_limit(vec![1, 2, 3], Some(0)), Vec::<i32>::new());
}

#[test]
fn luminance_mode() {
    let src = Canvas::from_pixels(3, 1, vec![px(255, 255, 255, 255), px(100, 100, 100, 255), px(9, 9, 9, 0)]).unwrap();
    let mut dst = solid(3, 1, px(0, 0, 0, 255));
    overlay_luminance(&mut dst, &src, ORANGE, 128);
    assert_eq!(dst.pixels, vec![px(128, 63, 0, 255), px(50, 24, 0, 255), px(0, 0, 0, 255)]);
    let mut full = solid(3, 1, px(0, 0, 0, 255));
    overlay_luminance(&mut full, &src, ORANGE, 255);
    assert_eq!(full.pixels, vec![px(255, 127, 0, 255), px(100, 49, 0, 255), px(0, 0, 0, 255)]);
}

#[test]
fn overlays_by_hand() {
    let src = Canvas::from_pixels(2, 1, vec![px(1, 2, 3, 255), px(1, 2, 3, 0)]).unwrap();
    let mut dst = solid(2, 1, px(0, 0, 0, 255));
    overlay_tinted(&mut dst, &src, ORANGE, 1, 2);
    assert_eq!(dst.pixels, vec![px(128, 64, 0, 255), px(0, 0, 0, 255)]);
    overlay_tinted(&mut dst, &src, ORANGE, 2, 2);
    assert_eq!(dst.pixels, vec![px(128, 64, 0, 255), px(0, 0, 0, 255)]);
    overlay_current(&mut dst, &src, GREEN);
    assert_eq!(dst.pixels, vec![px(0, 255, 0, 255), px(0, 0, 0, 255)]);
}
