use wlsnip::buffers::{CaptureBuffer, PixelFormat};
use wlsnip::error::WlsnipError;
use wlsnip::utils::geometry::{crop, Region};

#[test]
fn test_parse_slurp_geometry() {
    let region = Region::from_slurp("100,200 300x400").unwrap();
    assert_eq!(region.x, 100);
    assert_eq!(region.y, 200);
    assert_eq!(region.width, 300);
    assert_eq!(region.height, 400);
}

#[test]
fn test_crop_basic() {
    let buffer = CaptureBuffer {
        width: 10,
        height: 10,
        stride: 40, // 10 * 4 bpp
        format: PixelFormat::Argb8888,
        data: vec![0xAA; 400], // 10*10*4
    };
    let region = Region { x: 2, y: 2, width: 5, height: 5 };
    let cropped = crop(&buffer, &region).unwrap();
    assert_eq!(cropped.width, 5);
    assert_eq!(cropped.height, 5);
    assert_eq!(cropped.data.len(), (5 * 5 * 4) as usize);
}

#[test]
fn test_crop_out_of_bounds() {
    let buffer = CaptureBuffer {
        width: 10,
        height: 10,
        stride: 40,
        format: PixelFormat::Argb8888,
        data: vec![0; 400],
    };
    let region = Region { x: 5, y: 5, width: 10, height: 10 };
    assert!(crop(&buffer, &region).is_err());
}

fn region_error(s: &str) -> String {
    match Region::from_slurp(s) {
        Err(WlsnipError::RegionSelection(m)) => m,
        other => panic!("unexpected result {other:?}"),
    }
}

#[test]
fn slurp_accepts_surrounding_whitespace_and_signs() {
    let r = Region::from_slurp("  -20,+5\t 7x+8 \n").unwrap();
    assert_eq!(r, Region { x: -20, y: 5, width: 7, height: 8 });
    let r = Region::from_slurp("-2147483648,2147483647 4294967295x0").unwrap();
    assert_eq!(r, Region { x: i32::MIN, y: i32::MAX, width: u32::MAX, height: 0 });
}

#[test]
fn slurp_rejects_wrong_shapes() {
    assert_eq!(region_error("  100,200  "), "invalid slurp geometry: \"100,200\"");
    assert_eq!(region_error("1,2 3x4 5"), "invalid slurp geometry: \"1,2 3x4 5\"");
    assert_eq!(region_error("1,2,3 4x5"), "invalid slurp geometry: \"1,2,3 4x5\"");
    assert_eq!(region_error("1,2 4x5x6"), "invalid slurp geometry: \"1,2 4x5x6\"");
    assert_eq!(region_error(""), "invalid slurp geometry: \"\"");
}

#[test]
fn slurp_reports_the_first_bad_field() {
    assert_eq!(region_error("a,2 3x4"), "invalid x coordinate: \"a\"");
    assert_eq!(region_error("1, 3x4"), "invalid y coordinate: \"\"");
    assert_eq!(region_error("1,y 3x4"), "invalid y coordinate: \"y\"");
    assert_eq!(region_error("1,2 -3x4"), "invalid width: \"-3\"");
    assert_eq!(region_error("1,2 3x"), "invalid height: \"\"");
    assert_eq!(region_error("2147483648,2 3x4"), "invalid x coordinate: \"2147483648\"");
    assert_eq!(region_error("1,2 4294967296x4"), "invalid width: \"4294967296\"");
}

fn numbered(width: u32, height: u32, stride: u32) -> CaptureBuffer {
    let data: Vec<u8> = (0..stride * height).map(|i| (i % 251) as u8).collect();
    CaptureBuffer { width, height, stride, format: PixelFormat::Xrgb8888, data }
}

#[test]
fn crop_copies_the_selected_rows() {
    let b = numbered(4, 3, 20);
    let c = crop(&b, &Region { x: 1, y: 1, width: 2, height: 2 }).unwrap();
    assert_eq!(c.stride, 8);
    assert_eq!(c.format, PixelFormat::Xrgb8888);
    let expected: Vec<u8> = vec![24, 25, 26, 27, 28, 29, 30, 31, 44, 45, 46, 47, 48, 49, 50, 51];
    assert_eq!(c.data, expected);
}

#[test]
fn crop_clamps_negative_origin() {
    let b = numbered(4, 3, 16);
    let c = crop(&b, &Region { x: -5, y: -1, width: 1, height: 1 }).unwrap();
    assert_eq!(c.data, vec![0, 1, 2, 3]);
}

#[test]
fn crop_error_names_region_and_buffer() {
    let b = numbered(4, 3, 16);
    match crop(&b, &Region { x: -1, y: 2, width: 5, height: 1 }) {
        Err(WlsnipError::InvalidArg(m)) => {
            assert_eq!(m, "crop region (-1,2 5x1) exceeds buffer (4x3)");
        }
        other => panic!("unexpected {other:?}"),
    }
}

#[test]
fn crop_whole_packed_image_is_identity() {
    let b = numbered(3, 2, 12);
    let c = crop(&b, &Region { x: 0, y: 0, width: 3, height: 2 }).unwrap();
    assert_eq!(c.data, b.data);
    assert_eq!((c.width, c.height, c.stride), (3, 2, 12));
}

#[test]
fn crop_of_crop_is_one_crop() {
    let b = numbered(6, 5, 28);
    let once = crop(&b, &Region { x: 1, y: 1, width: 4, height: 3 }).unwrap();
    let twice = crop(&once, &Region { x: 2, y: 1, width: 2, height: 2 }).unwrap();
    let direct = crop(&b, &Region { x: 3, y: 2, width: 2, height: 2 }).unwrap();
    assert_eq!(twice.data, direct.data);
}
