use wlsnip::backends::{pixel_format_to_shm_format, shm_format_to_pixel_format};
use wlsnip::buffers::{CaptureBuffer, PixelFormat};
use wlsnip::encoders::png::{encode, strip_stride_padding};
use wlsnip::error::WlsnipError;
use wlsnip::utils::color::{convert_to_rgba, wl_format_to_pixel_format};
use wlsnip::utils::effects::apply_effects;
use wlsnip::utils::geometry::{crop, Region};
use wlsnip::utils::workspace_capture::stitch_buffers_horizontally;

#[test]
fn test_argb_to_rgba() {
    // ARGB8888 in little-endian memory: B=0x11, G=0x22, R=0x33, A=0xFF
    let mut buffer = CaptureBuffer {
        width: 1,
        height: 1,
        stride: 4,
        format: PixelFormat::Argb8888,
        data: vec![0x11, 0x22, 0x33, 0xFF],
    };
    convert_to_rgba(&mut buffer);
    // After: R=0x33, G=0x22, B=0x11, A=0xFF
    assert_eq!(buffer.data, vec![0x33, 0x22, 0x11, 0xFF]);
}

#[test]
fn test_xrgb_to_rgba_sets_alpha() {
    let mut buffer = CaptureBuffer {
        width: 1,
        height: 1,
        stride: 4,
        format: PixelFormat::Xrgb8888,
        data: vec![0x11, 0x22, 0x33, 0x00], // alpha is 0 (unused)
    };
    convert_to_rgba(&mut buffer);
    // Alpha should be forced to 0xFF
    assert_eq!(buffer.data, vec![0x33, 0x22, 0x11, 0xFF]);
}

#[test]
fn conversion_skips_row_padding_and_partial_pixels() {
    // stride 10: two pixels and two padding bytes per row; last row cut short
    let mut buffer = CaptureBuffer {
        width: 3,
        height: 2,
        stride: 10,
        format: PixelFormat::Xrgb8888,
        data: vec![1, 2, 3, 4, 5, 6, 7, 8, 9, 10, 11, 12, 13, 14, 15, 16, 17],
    };
    convert_to_rgba(&mut buffer);
    assert_eq!(buffer.data, vec![3, 2, 1, 255, 7, 6, 5, 255, 9, 10, 13, 12, 11, 255, 15, 16, 17]);
}

#[test]
fn xbgr_only_gets_opaque_and_abgr_is_untouched() {
    let mut x = CaptureBuffer { width: 2, height: 1, stride: 8, format: PixelFormat::Xbgr8888, data: vec![1, 2, 3, 4, 5, 6, 7, 8] };
    convert_to_rgba(&mut x);
    assert_eq!(x.data, vec![1, 2, 3, 255, 5, 6, 7, 255]);
    let mut a = CaptureBuffer { width: 2, height: 1, stride: 0, format: PixelFormat::Abgr8888, data: vec![1, 2, 3, 4, 5, 6, 7, 8] };
    convert_to_rgba(&mut a);
    assert_eq!(a.data, vec![1, 2, 3, 4, 5, 6, 7, 8]);
}

#[test]
fn argb_conversion_twice_restores_the_data() {
    let data: Vec<u8> = (0..24u8).collect();
    let mut b = CaptureBuffer { width: 2, height: 3, stride: 8, format: PixelFormat::Argb8888, data: data.clone() };
    convert_to_rgba(&mut b);
    assert_ne!(b.data, data);
    convert_to_rgba(&mut b);
    assert_eq!(b.data, data);
}

#[test]
fn wl_formats() {
    assert_eq!(wl_format_to_pixel_format(0), Some(PixelFormat::Argb8888));
    assert_eq!(wl_format_to_pixel_format(1), Some(PixelFormat::Xrgb8888));
    assert_eq!(wl_format_to_pixel_format(2), None);
    assert_eq!(shm_format_to_pixel_format(0x34324241), PixelFormat::Abgr8888);
    assert_eq!(shm_format_to_pixel_format(0x34324258), PixelFormat::Xbgr8888);
    assert_eq!(shm_format_to_pixel_format(0x20203852), PixelFormat::Xrgb8888);
    for f in [PixelFormat::Argb8888, PixelFormat::Xrgb8888, PixelFormat::Xbgr8888, PixelFormat::Abgr8888] {
        assert_eq!(shm_format_to_pixel_format(pixel_format_to_shm_format(f)), f);
    }
}

#[test]
fn buffer_basics() {
    let b = CaptureBuffer::new(3, 2, 16, PixelFormat::Xrgb8888);
    assert_eq!(b.data, vec![0u8; 32]);
    assert_eq!(b.data_size(), 32);
    assert_eq!(b.format.bytes_per_pixel(), 4);
}

#[test]
fn effects_without_padding_or_shadow_copy_the_buffer() {
    let b = CaptureBuffer { width: 1, height: 1, stride: 6, format: PixelFormat::Argb8888, data: vec![1, 2, 3, 4, 5, 6] };
    let e = apply_effects(&b, 0, false);
    assert_eq!((e.width, e.height, e.stride), (1, 1, 6));
    assert_eq!(e.data, b.data);
}

#[test]
fn padding_surrounds_the_image_with_transparent_pixels() {
    let b = CaptureBuffer { width: 1, height: 1, stride: 4, format: PixelFormat::Abgr8888, data: vec![9, 8, 7, 6] };
    let e = apply_effects(&b, 1, false);
    assert_eq!((e.width, e.height, e.stride), (3, 3, 12));
    let mut expected = vec![0u8; 36];
    expected[16..20].copy_from_slice(&[9, 8, 7, 6]);
    assert_eq!(e.data, expected);
}

#[test]
fn shadow_adds_thirty_pixels_and_a_dark_block() {
    let b = CaptureBuffer { width: 2, height: 2, stride: 8, format: PixelFormat::Argb8888, data: vec![0xEE; 16] };
    let e = apply_effects(&b, 0, true);
    assert_eq!((e.width, e.height, e.stride), (62, 62, 248));
    let px = |x: usize, y: usize| -> [u8; 4] {
        let o = y * 248 + x * 4;
        [e.data[o], e.data[o + 1], e.data[o + 2], e.data[o + 3]]
    };
    assert_eq!(px(30, 30), [0xEE; 4]);
    assert_eq!(px(31, 31), [0xEE; 4]);
    assert_eq!(px(35, 40), [0, 0, 0, 0x80]);
    assert_eq!(px(36, 41), [0, 0, 0, 0x80]);
    assert_eq!(px(37, 41), [0, 0, 0, 0]);
    assert_eq!(px(0, 0), [0, 0, 0, 0]);
}

#[test]
fn cropping_the_padding_away_gives_the_image_back() {
    let data: Vec<u8> = (0..24u8).collect();
    let b = CaptureBuffer { width: 2, height: 2, stride: 12, format: PixelFormat::Argb8888, data };
    let e = apply_effects(&b, 3, true);
    let c = crop(&e, &Region { x: 33, y: 33, width: 2, height: 2 }).unwrap();
    assert_eq!(c.data, vec![0, 1, 2, 3, 4, 5, 6, 7, 12, 13, 14, 15, 16, 17, 18, 19]);
}

#[test]
fn strip_padding_packs_rows() {
    let b = CaptureBuffer { width: 1, height: 2, stride: 6, format: PixelFormat::Abgr8888, data: vec![1, 2, 3, 4, 0, 0, 5, 6, 7, 8, 0, 0] };
    assert_eq!(strip_stride_padding(&b), vec![1, 2, 3, 4, 5, 6, 7, 8]);
    let packed = CaptureBuffer { width: 1, height: 1, stride: 4, format: PixelFormat::Abgr8888, data: vec![1, 2, 3, 4, 5] };
    assert_eq!(strip_stride_padding(&packed), vec![1, 2, 3, 4, 5]);
}

#[test]
fn png_encoding_writes_a_png_of_the_rgba_pixels() {
    let b = CaptureBuffer { width: 2, height: 1, stride: 8, format: PixelFormat::Argb8888, data: vec![1, 2, 3, 255, 4, 5, 6, 255] };
    let png = encode(&b).unwrap();
    assert_eq!(&png[..8], &[0x89, b'P', b'N', b'G', 0x0D, 0x0A, 0x1A, 0x0A]);
    // IHDR: width 2, height 1, depth 8, colour type 6 (RGBA)
    assert_eq!(&png[16..26], &[0, 0, 0, 2, 0, 0, 0, 1, 8, 6]);
    let mut decoder = zune_png::PngDecoder::new(zune_core::bytestream::ZCursor::new(&png));
    assert_eq!(decoder.decode_raw().unwrap(), vec![3, 2, 1, 255, 6, 5, 4, 255]);
}

#[test]
fn png_encoding_rejects_data_of_the_wrong_size() {
    let b = CaptureBuffer { width: 2, height: 1, stride: 8, format: PixelFormat::Abgr8888, data: vec![1, 2, 3, 4] };
    match encode(&b) {
        Err(WlsnipError::Encode(m)) => assert!(m.starts_with("PNG encoding failed: ")),
        other => panic!("unexpected {other:?}"),
    }
}

#[test]
fn stitching_places_buffers_side_by_side() {
    let a = CaptureBuffer { width: 1, height: 2, stride: 4, format: PixelFormat::Xrgb8888, data: vec![1, 1, 1, 1, 2, 2, 2, 2] };
    let b = CaptureBuffer { width: 2, height: 1, stride: 12, format: PixelFormat::Argb8888, data: vec![3, 3, 3, 3, 4, 4, 4, 4, 9, 9, 9, 9] };
    let s = stitch_buffers_horizontally(vec![a, b]).unwrap();
    assert_eq!((s.width, s.height, s.stride, s.format), (3, 2, 12, PixelFormat::Xrgb8888));
    assert_eq!(s.data, vec![1, 1, 1, 1, 3, 3, 3, 3, 4, 4, 4, 4, 2, 2, 2, 2, 0, 0, 0, 0, 0, 0, 0, 0]);
}

#[test]
fn stitching_one_or_no_buffer() {
    let a = CaptureBuffer { width: 1, height: 1, stride: 7, format: PixelFormat::Xrgb8888, data: vec![1, 2, 3, 4, 5, 6, 7] };
    let s = stitch_buffers_horizontally(vec![a]).unwrap();
    assert_eq!((s.stride, s.data.len()), (7, 7));
    match stitch_buffers_horizontally(Vec::new()) {
        Err(WlsnipError::Capture(m)) => assert_eq!(m, "No buffers to stitch"),
        other => panic!("unexpected {other:?}"),
    }
}
