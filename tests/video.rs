use std::sync::Arc;

use lqmy_desk::nal::annexb_to_avcc;
use lqmy_desk::quality::{capture_step, CaptureAction, EncodeError, QualityConfig, QualityEncoder, RawFrame};
use lqmy_desk::resize::resize_bgra;
use lqmy_desk::streams::MultiStreamManager;
use lqmy_desk::yuv::{bgra_to_yuv420, convert_bgra_to_yuv420, YuvBuffer};

fn flat(w: usize, h: usize, b: u8, g: u8, r: u8) -> Vec<u8> {
    let mut v = Vec::with_capacity(w * h * 4);
    for _ in 0..w * h {
        v.extend_from_slice(&[b, g, r, 255]);
    }
    v
}

fn encoder() -> openh264::encoder::Encoder {
    openh264::encoder::Encoder::new().unwrap()
}

#[test]
fn yuv_buffer_sizes() {
    let mut y = YuvBuffer::new(4, 2);
    assert_eq!(y.y.len(), 8);
    assert!(y.y.iter().chain(y.u.iter()).chain(y.v.iter()).all(|&b| b == 0));
    assert_eq!(y.u.len(), 2);
    assert_eq!(y.strides(), (4, 2, 2));
    y.resize(8, 4);
    assert_eq!(y.dimensions(), (8, 4));
    assert_eq!(y.y.len(), 32);
    assert_eq!(y.v.len(), 8);
}

#[test]
fn white_and_black_exact_values() {
    let white = bgra_to_yuv420(&flat(2, 2, 255, 255, 255), 2, 2);
    assert_eq!(white.y, vec![235; 4]);
    assert_eq!(white.u, vec![128]);
    assert_eq!(white.v, vec![128]);
    let black = bgra_to_yuv420(&flat(2, 2, 0, 0, 0), 2, 2);
    assert_eq!(black.y, vec![16; 4]);
    assert_eq!(black.u, vec![128]);
    assert_eq!(black.v, vec![128]);
}

#[test]
fn pure_red_exact_values() {
    let red = bgra_to_yuv420(&flat(2, 2, 0, 0, 255), 2, 2);
    // Y = ((66*255 + 128) >> 8) + 16 = 82; U = ((-38*255 + 128) >> 8) + 128 = 90;
    // V = ((112*255 + 128) >> 8) + 128 = 240.
    assert_eq!(red.y, vec![82; 4]);
    assert_eq!(red.u, vec![90]);
    assert_eq!(red.v, vec![240]);
}

#[test]
fn chroma_averages_the_block() {
    // Left column black, right column white: U and V stay neutral, luma differs.
    let mut img = Vec::new();
    img.extend_from_slice(&[0, 0, 0, 255, 255, 255, 255, 255]);
    img.extend_from_slice(&[0, 0, 0, 255, 255, 255, 255, 255]);
    let mut yuv = YuvBuffer::new(0, 0);
    convert_bgra_to_yuv420(&img, 2, 2, &mut yuv);
    assert_eq!(yuv.y, vec![16, 235, 16, 235]);
    assert_eq!(yuv.u, vec![128]);
    assert_eq!(yuv.v, vec![128]);
}

fn inverse(y: u8, u: u8, v: u8) -> (f64, f64, f64) {
    let c = y as f64 - 16.0;
    let d = u as f64 - 128.0;
    let e = v as f64 - 128.0;
    let r = 1.164 * c + 1.596 * e;
    let g = 1.164 * c - 0.392 * d - 0.813 * e;
    let b = 1.164 * c + 2.017 * d;
    (b.clamp(0.0, 255.0), g.clamp(0.0, 255.0), r.clamp(0.0, 255.0))
}

#[test]
fn flat_colour_round_trip() {
    for &(b, g, r) in &[(0u8, 0u8, 0u8), (255, 255, 255), (10, 200, 30), (128, 128, 128), (200, 50, 90), (0, 0, 255)] {
        let yuv = bgra_to_yuv420(&flat(4, 2, b, g, r), 4, 2);
        let ty = 16.0 + (66.0 * r as f64 + 129.0 * g as f64 + 25.0 * b as f64) / 256.0;
        let tu = 128.0 + (-38.0 * r as f64 - 74.0 * g as f64 + 112.0 * b as f64) / 256.0;
        let tv = 128.0 + (112.0 * r as f64 - 94.0 * g as f64 - 18.0 * b as f64) / 256.0;
        for &y in &yuv.y {
            assert!((y as f64 - ty).abs() <= 2.0);
        }
        assert!((yuv.u[0] as f64 - tu).abs() <= 2.0);
        assert!((yuv.v[0] as f64 - tv).abs() <= 2.0);
        let (bb, gg, rr) = inverse(yuv.y[0], yuv.u[0], yuv.v[0]);
        assert!((bb - b as f64).abs() <= 3.0, "{} {} {}", b, g, r);
        assert!((gg - g as f64).abs() <= 3.0, "{} {} {}", b, g, r);
        assert!((rr - r as f64).abs() <= 3.0, "{} {} {}", b, g, r);
    }
}

#[test]
fn identity_resize_is_byte_equal() {
    let src: Vec<u8> = (0..(6 * 4 * 4)).map(|i| (i * 7 % 256) as u8).collect();
    let mut dst = vec![0u8; src.len()];
    resize_bgra(&src, 6, 4, &mut dst, 6, 4);
    assert_eq!(dst, src);
}

#[test]
fn downscale_by_two_picks_top_left() {
    // 4x2 -> 2x1: step is exactly two source pixels, so weights are zero.
    let mut src = Vec::new();
    for i in 0..8u8 {
        src.extend_from_slice(&[i, i + 10, i + 20, 255]);
    }
    let mut dst = vec![0u8; 8];
    resize_bgra(&src, 4, 2, &mut dst, 2, 1);
    assert_eq!(dst, vec![0, 10, 20, 255, 2, 12, 22, 255]);
}

#[test]
fn upscale_interpolates() {
    // 2x1 -> 4x1: destination x = 1 lies halfway between the two source pixels.
    let src = vec![0, 0, 0, 0, 200, 100, 50, 255];
    let mut dst = vec![0u8; 16];
    resize_bgra(&src, 2, 1, &mut dst, 4, 1);
    assert_eq!(&dst[0..4], &[0, 0, 0, 0]);
    assert_eq!(&dst[4..8], &[100, 50, 25, 127]);
    assert_eq!(&dst[8..12], &[200, 100, 50, 255]);
}

#[test]
fn annexb_to_avcc_frames_units() {
    let data = vec![9, 0, 0, 0, 1, 0xAA, 0xBB, 0, 0, 0, 1, 0xCC];
    assert_eq!(annexb_to_avcc(&data), vec![0, 0, 0, 2, 0xAA, 0xBB, 0, 0, 0, 1, 0xCC]);
    assert_eq!(annexb_to_avcc(&[1, 2, 3]), Vec::<u8>::new());
    assert_eq!(annexb_to_avcc(&[0, 0, 0, 1, 0, 0, 0, 1]), vec![0, 0, 0, 0, 0, 0, 0, 0]);
}

#[test]
fn quality_config_rules() {
    let c = QualityConfig::new("720p", 1280, 720, 2_000_000, 30);
    assert_eq!(c.max_keyframe_interval, 60);
    assert_eq!(c.validate(), Ok(()));
    assert_eq!(QualityConfig::new("x", 0, 720, 1, 30).validate(), Err("dimensions must be positive and even"));
    assert_eq!(QualityConfig::new("x", 1281, 720, 1, 30).validate(), Err("dimensions must be positive and even"));
    assert_eq!(QualityConfig::new("x", 1280, 720, 1, 0).validate(), Err("fps must be between 1 and 120"));
    assert_eq!(QualityConfig::new("x", 1280, 720, 1, 121).validate(), Err("fps must be between 1 and 120"));
    assert_eq!(QualityConfig::new("x", 1280, 720, 0, 30).validate(), Err("bitrate must be positive"));
}

#[test]
fn peer_default_quality() {
    let q = QualityConfig::peer_default();
    assert_eq!(q.name, "480p");
    assert_eq!((q.width, q.height, q.bitrate, q.fps), (854, 480, 500_000, 30));
    assert_eq!(q.validate(), Ok(()));
}

fn frame(w: u32, h: u32, id: u64) -> RawFrame {
    RawFrame { width: w, height: h, data: Arc::new(flat(w as usize, h as usize, 40, 80, 120)), timestamp: id, frame_id: id }
}

#[test]
fn pacing_at_half_the_capture_rate() {
    let cfg = QualityConfig::new("low", 64, 48, 200_000, 30);
    let mut enc = QualityEncoder::new(cfg, encoder(), 0);
    let period = 16_666_667u64;
    let mut produced = 0;
    let mut keyframes = 0;
    for k in 0..120u64 {
        let now = 33_333_333 + k * period;
        match enc.encode(&frame(64, 48, k), now).unwrap() {
            Some(f) => {
                produced += 1;
                assert_eq!(f.frame_id, k);
                assert_eq!(f.quality, "low");
                if f.is_keyframe {
                    keyframes += 1;
                }
            }
            None => {}
        }
    }
    let elapsed_secs = 120.0 * period as f64 / 1e9;
    let expected = (elapsed_secs * 30.0).floor() as i64;
    assert!((produced as i64 - expected).abs() <= 1, "{}", produced);
    assert_eq!(keyframes, 1);
}

#[test]
fn encoder_scales_and_rejects_bad_frames() {
    let cfg = QualityConfig::new("small", 32, 16, 100_000, 10);
    let mut enc = QualityEncoder::new(cfg, encoder(), 0);
    assert!(!enc.should_encode(1));
    assert_eq!(enc.encode(&frame(64, 32, 1), 1).unwrap().is_none(), true);
    let bad = RawFrame { width: 8, height: 8, data: Arc::new(vec![0; 10]), timestamp: 0, frame_id: 0 };
    assert_eq!(enc.encode(&bad, 200_000_000).err(), Some(EncodeError::BadFrame));
    let out = enc.encode(&frame(64, 32, 2), 400_000_000).unwrap().unwrap();
    assert!(out.is_keyframe);
    assert!(!out.data.is_empty());
    assert_eq!(enc.yuv_buffer.dimensions(), (32, 16));
    assert_eq!(enc.frame_count, 1);
}

#[test]
fn add_quality_stream_is_idempotent() {
    let mut m = MultiStreamManager::new();
    let a = m.add_quality_stream(QualityConfig::new("720p", 1280, 720, 2_000_000, 30), encoder(), 0).unwrap();
    assert!(a.created);
    let b = m.add_quality_stream(QualityConfig::new("720p", 640, 360, 1_000, 15), encoder(), 0).unwrap();
    assert!(!b.created);
    assert_eq!(a.index, b.index);
    assert_eq!(m.get_active_qualities(), vec!["720p".to_string()]);
    assert_eq!(m.encoders[0].config.width, 1280);
    assert_eq!(
        m.add_quality_stream(QualityConfig::new("bad", 3, 3, 1, 30), encoder(), 0).err(),
        Some("dimensions must be positive and even")
    );
}

#[test]
fn manager_lifecycle() {
    let mut m = MultiStreamManager::new();
    assert!(m.start_capture());
    assert!(!m.start_capture());
    let config = QualityConfig::new("720p", 1280, 720, 2_000_000, 30);
    m.add_quality_stream(config, encoder(), 0).unwrap();
    m.add_quality_stream(QualityConfig::new("480p", 854, 480, 500_000, 30), encoder(), 0).unwrap();
    assert_eq!(m.add_webrtc_track("1080p", "peer"), Err("quality stream not found"));
    assert_eq!(m.add_webrtc_track("720p", "p1"), Ok(true));
    assert_eq!(m.add_webrtc_track("720p", "p1"), Ok(false));
    assert_eq!(m.add_webrtc_track("720p", "p2"), Ok(true));
    assert!(m.close_track_write("720p", "p1"));
    assert_eq!(m.stream_index("720p"), Some(0));
    assert!(m.close_track_write("720p", "p2"));
    assert_eq!(m.stream_index("720p"), None);
    assert!(!m.close_track_write("720p", "p2"));
    m.remove_quality_stream("480p");
    assert!(m.get_active_qualities().is_empty());
    m.add_quality_stream(QualityConfig::new("360p", 640, 360, 300_000, 15), encoder(), 0).unwrap();
    m.shutdown();
    assert!(m.shutdown_signal);
    assert!(!m.capture_running);
    assert!(m.get_active_qualities().is_empty());
}

#[test]
fn encode_frame_reports_each_stream() {
    let mut m = MultiStreamManager::new();
    m.add_quality_stream(QualityConfig::new("a", 32, 16, 100_000, 30), encoder(), 0).unwrap();
    m.add_quality_stream(QualityConfig::new("b", 16, 16, 100_000, 30), encoder(), 0).unwrap();
    let out = m.encode_frame(&frame(32, 16, 5), 100_000_000);
    assert_eq!(out.len(), 2);
    assert_eq!(out[0].quality, "a");
    assert_eq!(out[1].quality, "b");
    for o in &out {
        let f = o.result.as_ref().unwrap().as_ref().unwrap();
        assert_eq!(f.frame_id, 5);
    }
}

#[test]
fn capture_pacing_decisions() {
    assert_eq!(capture_step(16_666_667), CaptureAction::Capture);
    assert_eq!(capture_step(u64::MAX), CaptureAction::Capture);
    assert_eq!(capture_step(0), CaptureAction::Sleep(16_616_667));
    assert_eq!(capture_step(16_566_667), CaptureAction::Yield);
    assert_eq!(capture_step(16_566_666), CaptureAction::Sleep(50_001));
}
