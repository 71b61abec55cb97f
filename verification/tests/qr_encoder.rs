use qr_encoder::codec::SaveError;
use qr_encoder::level::{level_from_label, EcLevel};
use qr_encoder::matrix::ModuleMatrix;
use qr_encoder::qr::QrGenError;
use qr_encoder::render::{matrix_from_pixels, render};
use qr_encoder::save::{resolve_save_path, ImageFormat};
use qr_encoder::state::{regenerate, save_image, AppState};

#[test]
fn label_parsing_selects_each_level() {
    assert_eq!(level_from_label("Low (7%)"), Some(EcLevel::Low));
    assert_eq!(level_from_label("Medium (15%)"), Some(EcLevel::Medium));
    assert_eq!(level_from_label("Quartile (25%)"), Some(EcLevel::Quartile));
    assert_eq!(level_from_label("High (30%)"), Some(EcLevel::High));
    assert_eq!(level_from_label("Low (7%) "), None);
    assert_eq!(level_from_label(""), None);
}

#[test]
fn hello_low_reaches_requested_size() {
    let mut state = AppState::new();
    let r = regenerate(&mut state, &b"HELLO".to_vec(), EcLevel::Low, 200);
    assert!(r.is_ok());
    let img = state.image.as_ref().unwrap();
    assert!(img.width >= 200);
    assert!(img.height >= 200);
    assert!(state.status.is_empty());
}

#[test]
fn nonempty_text_within_capacity_succeeds_at_every_level() {
    for level in [EcLevel::Low, EcLevel::Medium, EcLevel::Quartile, EcLevel::High] {
        let mut state = AppState::new();
        let r = regenerate(&mut state, &b"some data".to_vec(), level, 50);
        assert!(r.is_ok());
        let img = state.image.as_ref().unwrap();
        assert!(img.width >= 50);
        assert!(img.height >= 50);
    }
}

#[test]
fn empty_text_still_encodes() {
    let mut state = AppState::new();
    let r = regenerate(&mut state, &Vec::new(), EcLevel::Medium, 10);
    assert!(r.is_ok());
    assert!(state.image.is_some());
}

#[test]
fn too_long_text_reports_capacity_error_and_keeps_image() {
    let mut state = AppState::new();
    regenerate(&mut state, &b"HI".to_vec(), EcLevel::Low, 50).unwrap();
    let before = state.image.as_ref().unwrap().data.clone();
    let long = vec![b'a'; 3000];
    let r = regenerate(&mut state, &long, EcLevel::High, 50);
    assert_eq!(r, Err(QrGenError::DataTooLong));
    assert!(!state.status.is_empty());
    assert_eq!(state.image.as_ref().unwrap().data, before);
}

#[test]
fn failed_first_encode_leaves_no_image() {
    let mut state = AppState::new();
    let long = vec![b'a'; 4000];
    let r = regenerate(&mut state, &long, EcLevel::Low, 50);
    assert!(r.is_err());
    assert!(state.image.is_none());
    assert!(!state.status.is_empty());
}

#[test]
fn save_without_image_reports_missing_image() {
    let state = AppState::new();
    let r = save_image(&state, &b"out.png".to_vec());
    assert_eq!(r, Err(SaveError::MissingImage));
}

fn state_with_image() -> AppState {
    let mut state = AppState::new();
    regenerate(&mut state, &b"HELLO".to_vec(), EcLevel::Low, 64).unwrap();
    state
}

#[test]
fn save_jpg_yields_jpeg_stream() {
    let state = state_with_image();
    let (path, bytes) = save_image(&state, &b"code.jpg".to_vec()).unwrap();
    assert_eq!(path, b"code.jpg".to_vec());
    assert_eq!(&bytes[0..2], &[0xFF, 0xD8]);
}

#[test]
fn save_jpeg_extension_yields_jpeg_stream() {
    let state = state_with_image();
    let (path, bytes) = save_image(&state, &b"code.jpeg".to_vec()).unwrap();
    assert_eq!(path, b"code.jpeg".to_vec());
    assert_eq!(&bytes[0..2], &[0xFF, 0xD8]);
}

#[test]
fn save_bmp_yields_bmp_stream() {
    let state = state_with_image();
    let (path, bytes) = save_image(&state, &b"code.bmp".to_vec()).unwrap();
    assert_eq!(path, b"code.bmp".to_vec());
    assert_eq!(&bytes[0..2], b"BM");
}

const PNG_MAGIC: [u8; 8] = [137, 80, 78, 71, 13, 10, 26, 10];

#[test]
fn save_png_yields_png_stream() {
    let state = state_with_image();
    let (path, bytes) = save_image(&state, &b"code.png".to_vec()).unwrap();
    assert_eq!(path, b"code.png".to_vec());
    assert_eq!(&bytes[0..8], &PNG_MAGIC);
}

#[test]
fn save_without_extension_appends_png() {
    let state = state_with_image();
    let (path, bytes) = save_image(&state, &b"code".to_vec()).unwrap();
    assert_eq!(path, b"code.png".to_vec());
    assert_eq!(&bytes[0..8], &PNG_MAGIC);
}

#[test]
fn save_unrecognized_extension_appends_png() {
    let state = state_with_image();
    let (path, bytes) = save_image(&state, &b"code.txt".to_vec()).unwrap();
    assert_eq!(path, b"code.txt.png".to_vec());
    assert_eq!(&bytes[0..8], &PNG_MAGIC);
}

#[test]
fn resolution_reads_only_the_file_name() {
    let r = resolve_save_path(&b"a/b.png".to_vec());
    assert_eq!(r, (b"a/b.png".to_vec(), ImageFormat::Png));
    let r = resolve_save_path(&b"dir.png/file".to_vec());
    assert_eq!(r, (b"dir.png/file.png".to_vec(), ImageFormat::Png));
}

#[test]
fn resolution_ignores_a_hidden_file_dot() {
    let r = resolve_save_path(&b".png".to_vec());
    assert_eq!(r, (b".png.png".to_vec(), ImageFormat::Png));
    let r = resolve_save_path(&b"a/.jpg".to_vec());
    assert_eq!(r, (b"a/.jpg.png".to_vec(), ImageFormat::Png));
}

#[test]
fn resolution_is_case_sensitive() {
    let r = resolve_save_path(&b"x.PNG".to_vec());
    assert_eq!(r, (b"x.PNG.png".to_vec(), ImageFormat::Png));
    let r = resolve_save_path(&b"x.Jpg".to_vec());
    assert_eq!(r, (b"x.Jpg.png".to_vec(), ImageFormat::Png));
}

#[test]
fn resolution_uses_the_last_dot() {
    let r = resolve_save_path(&b"archive.tar.bmp".to_vec());
    assert_eq!(r, (b"archive.tar.bmp".to_vec(), ImageFormat::Bmp));
    let r = resolve_save_path(&b"archive.bmp.tar".to_vec());
    assert_eq!(r, (b"archive.bmp.tar.png".to_vec(), ImageFormat::Png));
}

#[test]
fn render_roundtrip_recovers_matrix() {
    let m = ModuleMatrix { width: 2, modules: vec![true, false, false, true] };
    let p = render(&m, 100);
    assert_eq!(p.width, 100);
    assert_eq!(p.height, 100);
    let m2 = matrix_from_pixels(&p, 2, 10);
    assert_eq!(m2.width, 2);
    assert_eq!(m2.modules, vec![true, false, false, true]);
}

#[test]
fn render_roundtrip_on_a_real_symbol() {
    let mut state = AppState::new();
    regenerate(&mut state, &b"round trip".to_vec(), EcLevel::Quartile, 120).unwrap();
    let img = state.image.as_ref().unwrap();
    // A quartile-level symbol for this text is 21 modules wide; with the
    // quiet zone that is 29, so the scale is 5 and the image 145 pixels.
    assert_eq!(img.width, 145);
    let m = matrix_from_pixels(img, 21, 5);
    let p2 = render(&m, 120);
    assert_eq!(p2.data, img.data);
}

#[test]
fn render_paints_modules_and_quiet_zone() {
    let m = ModuleMatrix { width: 1, modules: vec![true] };
    let p = render(&m, 0);
    assert_eq!(p.width, 9);
    assert_eq!(p.height, 9);
    assert_eq!(p.data.len(), 3 * 81);
    let idx = |x: usize, y: usize| 3 * (y * 9 + x);
    // the single dark module sits inside the quiet zone
    assert_eq!(p.data[idx(4, 4)], 0);
    assert_eq!(p.data[idx(0, 0)], 255);
    assert_eq!(p.data[idx(8, 8)], 255);
    assert_eq!(p.data[idx(3, 4)], 255);
}

#[test]
fn encoded_symbol_is_version_one_with_finder_pattern() {
    let mut state = AppState::new();
    regenerate(&mut state, &b"HELLO".to_vec(), EcLevel::Low, 0).unwrap();
    let img = state.image.as_ref().unwrap();
    // A version 1 symbol is 21 modules wide, 29 with the quiet zone.
    assert_eq!(img.width, 29);
    let idx = |x: usize, y: usize| 3 * (y * 29 + x);
    // quiet zone is light, the finder pattern's corner module is dark
    assert_eq!(img.data[idx(0, 0)], 255);
    assert_eq!(img.data[idx(4, 4)], 0);
}

#[test]
fn saved_png_decodes_back_to_the_displayed_pixels() {
    let state = state_with_image();
    let img = state.image.as_ref().unwrap();
    let (_, bytes) = save_image(&state, &b"code.png".to_vec()).unwrap();
    let decoded = image::load_from_memory(&bytes).unwrap().into_rgb8();
    assert_eq!(decoded.width() as usize, img.width);
    assert_eq!(decoded.height() as usize, img.height);
    assert_eq!(decoded.into_raw(), img.data);
}

#[test]
fn error_messages_are_nonempty() {
    assert_eq!(QrGenError::DataTooLong.message(), "data too long");
    assert!(!QrGenError::InvalidVersion.message().is_empty());
    assert_eq!(SaveError::MissingImage.message(), "missing image");
    assert!(!SaveError::EncodingFailed.message().is_empty());
}
