use multiqr::encoder::EncodeFailure;
use multiqr::render::{plan_bitmaps, render_text};
use multiqr::Error;
use multiqr::Params;
use multiqr::{qr, Bitmap, Rendering};
use qr_code::QrCode;
use std::path::PathBuf;

fn text(content: &[u8], params: &Params) -> Result<String, Error> {
    match qr(content, params, None, None) {
        Ok(Rendering::Text(text)) => Ok(text),
        Ok(Rendering::Bitmaps(_)) => panic!("bitmaps where text was asked for"),
        Err(error) => Err(error),
    }
}

fn bitmaps<'a>(content: &'a [u8], params: &Params) -> Result<Vec<Bitmap<'a>>, Error> {
    let path = params.bmp.clone().unwrap();
    let stem = path.file_stem().and_then(|s| s.to_str());
    let extension = path.extension().and_then(|s| s.to_str());
    match qr(content, params, stem, extension) {
        Ok(Rendering::Bitmaps(plan)) => Ok(plan),
        Ok(Rendering::Text(_)) => panic!("text where bitmaps were asked for"),
        Err(error) => Err(error),
    }
}

fn to_file(path: &str) -> Params {
    Params { bmp: Some(PathBuf::from(path)), ..Params::default() }
}

fn expected_block(
    data: &[u8],
    index: usize,
    count: usize,
    label: &str,
    border: u8,
    invert: bool,
) -> String {
    let code = QrCode::new(data).unwrap();
    let version = match code.version() {
        qr_code::Version::Normal(x) => x,
        qr_code::Version::Micro(x) => -x,
    };
    let number = format!("{} ({}/{count}) v{:?}\n", label, index + 1, version);
    let room = code.width() + border as usize * 2;
    let spaces = " ".repeat(room.saturating_sub(number.len()) / 2);
    format!("{spaces}{number}{}", code.to_string(!invert, border))
}

#[test]
fn default_params() {
    let params = Params::default();
    assert_eq!(params.qr_version, 16);
    assert_eq!(params.border, 4);
    assert_eq!(params.empty_lines, 6);
    assert!(!params.invert);
    assert_eq!(params.label, None);
    assert_eq!(params.bmp, None);
    assert_eq!(params.bmp_pixel_per_module, 12);
}

#[test]
fn one_small_code() {
    let page = text(b"HELLO", &Params::default()).unwrap();
    assert_eq!(page, expected_block(b"HELLO", 0, 1, "", 4, false));
    assert!(page.starts_with("          (1/1) v1\n"));
    assert!(page.contains('\u{2588}'));
}

#[test]
fn several_codes_with_blank_lines_between() {
    let content = vec![b'x'; 30];
    let params = Params { qr_version: 1, empty_lines: 2, label: Some("part".to_string()), ..Params::default() };
    let page = text(&content, &params).unwrap();
    let mut expected = String::new();
    let pieces: Vec<&[u8]> = content.chunks(7).collect();
    assert_eq!(pieces.len(), 5);
    for (index, piece) in pieces.iter().enumerate() {
        expected.push_str(&expected_block(piece, index, 5, "part", 4, false));
        if index < 4 {
            expected.push_str("\n\n");
        }
    }
    assert_eq!(page, expected);
}

#[test]
fn inverted_code_without_border() {
    let params = Params { invert: true, border: 0, ..Params::default() };
    let page = text(b"0123456789", &params).unwrap();
    assert_eq!(page, expected_block(b"0123456789", 0, 1, "", 0, true));
    let plain = text(b"0123456789", &Params { border: 0, ..Params::default() }).unwrap();
    assert_ne!(page, plain);
}

#[test]
fn widest_border_that_is_drawn() {
    let params = Params { border: 254, ..Params::default() };
    let page = text(b"A", &params).unwrap();
    assert_eq!(page, expected_block(b"A", 0, 1, "", 254, false));
}

#[test]
fn no_blank_lines_when_none_are_wanted() {
    let content = vec![b'x'; 20];
    let params = Params { qr_version: 1, empty_lines: 0, ..Params::default() };
    let page = text(&content, &params).unwrap();
    // Twenty bytes have version 2; ten have version 1: three pieces of seven at most.
    let pieces: Vec<&[u8]> = content.chunks(7).collect();
    let mut expected = String::new();
    for (index, piece) in pieces.iter().enumerate() {
        expected.push_str(&expected_block(piece, index, pieces.len(), "", 4, false));
    }
    assert_eq!(page, expected);
}

#[test]
fn rendering_passes_on_the_errors_of_the_estimate() {
    assert_eq!(text(b"", &Params::default()), Err(Error::EmptyContent));
    assert_eq!(text(b"x", &Params { qr_version: 0, ..Params::default() }), Err(Error::InvalidVersion));
    assert_eq!(text(b"x", &Params { qr_version: 41, ..Params::default() }), Err(Error::InvalidVersion));
}

#[test]
fn a_chunk_that_fits_no_code_is_reported() {
    // One byte more than the largest code holds: the estimate keeps the buffer whole.
    let content = vec![b'x'; 2_332];
    let params = Params { qr_version: 40, ..Params::default() };
    assert_eq!(text(&content, &params), Err(Error::Qr(EncodeFailure::DataTooLong)));
}

#[test]
fn text_is_what_render_text_gives() {
    let params = Params { qr_version: 2, label: Some("id".to_string()), ..Params::default() };
    let content = vec![b'7'; 150];
    assert_eq!(text(&content, &params), render_text(&content, &params));
}

#[test]
fn bitmap_path_is_checked_before_the_content() {
    assert_eq!(bitmaps(b"", &to_file("out.png")), Err(Error::BmpWrongExtension));
    assert_eq!(bitmaps(b"hello", &to_file("out.BMP")), Err(Error::BmpWrongExtension));
    let bad_version = Params { qr_version: 0, ..to_file("out.png") };
    assert_eq!(bitmaps(b"hello", &bad_version), Err(Error::BmpWrongExtension));
}

#[test]
fn bitmap_path_without_extension_is_refused() {
    assert_eq!(bitmaps(b"hello", &to_file("out")), Err(Error::BmpWithoutExtension));
    assert_eq!(bitmaps(b"", &to_file("dir/out")), Err(Error::BmpWithoutExtension));
}

#[test]
fn bitmap_path_without_stem_is_refused() {
    assert_eq!(bitmaps(b"hello", &to_file("..")), Err(Error::BmpWithoutStem));
    assert_eq!(qr(b"hello", &to_file("x.bmp"), None, Some("bmp")), Err(Error::BmpWithoutStem));
    assert_eq!(qr(b"hello", &to_file("x.bmp"), None, None), Err(Error::BmpWithoutStem));
}

#[test]
fn bitmap_mode_passes_on_the_errors_of_the_estimate() {
    assert_eq!(bitmaps(b"", &to_file("out.bmp")), Err(Error::EmptyContent));
    let bad_version = Params { qr_version: 41, ..to_file("out.bmp") };
    assert_eq!(bitmaps(b"hello", &bad_version), Err(Error::InvalidVersion));
}

#[test]
fn one_bitmap_keeps_the_path() {
    let plan = bitmaps(b"hello", &to_file("out.bmp")).unwrap();
    assert_eq!(plan, vec![Bitmap { file_name: None, data: &b"hello"[..] }]);
}

#[test]
fn several_bitmaps_are_numbered_from_zero() {
    let content: Vec<u8> = (0..30u8).map(|i| b'a' + i % 26).collect();
    let params = Params { qr_version: 1, ..to_file("some/dir/out.bmp") };
    let plan = bitmaps(&content, &params).unwrap();
    let names: Vec<Option<String>> = plan.iter().map(|b| b.file_name.clone()).collect();
    assert_eq!(
        names,
        (0..5).map(|i| Some(format!("out_{i}.bmp"))).collect::<Vec<Option<String>>>()
    );
    let pieces: Vec<&[u8]> = plan.iter().map(|b| b.data).collect();
    assert_eq!(pieces, content.chunks(7).collect::<Vec<&[u8]>>());
}

#[test]
fn bitmap_mode_draws_no_text_and_takes_any_border() {
    let params = Params { border: 255, ..to_file("out.bmp") };
    assert_eq!(
        qr(b"hello", &params, Some("out"), Some("bmp")),
        Ok(Rendering::Bitmaps(vec![Bitmap { file_name: None, data: &b"hello"[..] }]))
    );
}

#[test]
fn text_mode_takes_no_notice_of_stem_and_extension() {
    let with_parts = qr(b"hello", &Params::default(), Some("out"), Some("png"));
    assert_eq!(with_parts, qr(b"hello", &Params::default(), None, None));
    assert!(matches!(with_parts, Ok(Rendering::Text(_))));
}

#[test]
fn plan_of_bitmaps_by_itself() {
    let plan = plan_bitmaps(b"0123456789", 40, "code", "bmp").unwrap();
    assert_eq!(plan, vec![Bitmap { file_name: None, data: &b"0123456789"[..] }]);
    assert_eq!(plan_bitmaps(b"", 40, "code", "bmp"), Err(Error::EmptyContent));
}
