use image::codecs::gif::GifEncoder;
use image::{Delay, Frame, Rgba, RgbaImage};
use tt_rc_pro::gif::{frame_at, frame_delay_ms, scale_frame, DecodedGifFrame, GifAnimation, GifError};

fn gif_bytes(delays_ms: &[u32]) -> Vec<u8> {
    let mut buf = Vec::new();
    {
        let mut enc = GifEncoder::new(&mut buf);
        for (i, d) in delays_ms.iter().enumerate() {
            let img = RgbaImage::from_pixel(3, 2, Rgba([(i * 40) as u8, 10, 20, 255]));
            enc.encode_frame(Frame::from_parts(img, 0, 0, Delay::from_numer_denom_ms(*d, 1))).unwrap();
        }
    }
    buf
}

#[test]
fn frame_delays() {
    assert_eq!(frame_delay_ms(100, 1), 100);
    assert_eq!(frame_delay_ms(250, 2), 125);
    assert_eq!(frame_delay_ms(0, 1), 10, "zero delays are raised to 10 ms");
    assert_eq!(frame_delay_ms(5, 0), 100, "no denominator falls back to 100 ms");
}

#[test]
fn frame_selection_loops() {
    let delays = [100u64, 50, 200];
    assert_eq!(frame_at(&delays, 350, 0), 0);
    assert_eq!(frame_at(&delays, 350, 99), 0);
    assert_eq!(frame_at(&delays, 350, 100), 1);
    assert_eq!(frame_at(&delays, 350, 149), 1);
    assert_eq!(frame_at(&delays, 350, 150), 2);
    assert_eq!(frame_at(&delays, 350, 349), 2);
    assert_eq!(frame_at(&delays, 350, 350), 0);
    assert_eq!(frame_at(&delays, 350, 350 * 1000 + 120), 1);
}

#[test]
fn load_decodes_frames() {
    let bytes = gif_bytes(&[100, 200]);
    let anim = GifAnimation::load(&bytes).unwrap();
    assert_eq!(anim.frame_count(), 2);
    assert_eq!((anim.original_width(), anim.original_height()), (3, 2));
    let f = anim.current_frame();
    assert_eq!((f.width, f.height), (3, 2));
    assert_eq!(f.pixels.len(), 3 * 2 * 4);
    assert!(anim.current_frame_index() < 2);
}

#[test]
fn single_frame_is_always_shown() {
    let anim = GifAnimation::load(&gif_bytes(&[30])).unwrap();
    assert_eq!(anim.current_frame_index(), 0);
    assert_eq!(anim.current_frame().pixels[0], 0);
}

#[test]
fn load_refuses_garbage() {
    assert_eq!(GifAnimation::load(b"not a gif").err(), Some(GifError::Decode));
}

fn frame(width: u32, height: u32, delay_numer: u32, delay_denom: u32) -> DecodedGifFrame {
    DecodedGifFrame { width, height, pixels: vec![200u8; (width * height * 4) as usize], delay_numer, delay_denom }
}

#[test]
fn animation_from_decoded_frames() {
    assert_eq!(GifAnimation::from_frames(Vec::new()).err(), Some(GifError::NoFrames));
    let anim = GifAnimation::from_frames(vec![frame(5, 4, 70, 1), frame(5, 4, 0, 0)]).unwrap();
    assert_eq!(anim.frame_count(), 2);
    assert_eq!((anim.original_width(), anim.original_height()), (5, 4));
    assert!(anim.current_frame_index() < 2);
}

#[test]
fn frames_scaled_to_drawn_size() {
    let f = frame(3, 2, 100, 1);
    assert_eq!(scale_frame(&f, 3, 2), f.pixels, "a frame at its drawn size is kept");
    let bigger = scale_frame(&f, 6, 4);
    assert_eq!(bigger.len(), 6 * 4 * 4);
    assert_eq!(scale_frame(&f, 1, 1).len(), 4);
    assert!(scale_frame(&f, 0, 5).is_empty());
}
