use monotools::platform::icon::{blank_icon_precheck, BlankCheck};
use monotools::platform::icon::blank_icon_stats;
use monotools::platform::icon::{
    cache_key, crop_rgba, find_content_bounds, get_extractor, icon_path_admissible, is_lnk_path, IconExtractor,
    WindowsIconExtractor,
};

#[test]
fn cache_key_lowercases_and_normalizes() {
    let p = r"C:\Windows\System32\notepad.exe";
    let k = cache_key(p, None);
    assert!(k.to_lowercase().contains("notepad"));
}

#[test]
fn cache_key_prefers_canonical_form() {
    assert_eq!(cache_key(r"a\..\B.EXE", Some(r"C:\Apps\B.EXE")), r"c:\apps\b.exe");
}

#[test]
fn get_extractor_returns_windows_impl() {
    let ex = get_extractor();
    assert_eq!(ex.platform_name(), "windows");
}

#[test]
fn windows_extractor_supports_common_types() {
    let ex = WindowsIconExtractor;
    assert!(ex.supports("C:/x/y.exe"));
    assert!(ex.supports("C:/x/y.lnk"));
    assert!(ex.supports("C:/x/y.url"));
    assert!(ex.supports("C:/x/y.ico"));
    assert!(ex.supports("C:/x/y.msi"));
    assert!(ex.supports("C:/x/y.scr"));
}

#[test]
fn windows_extractor_supports_uppercase_extensions() {
    let ex = WindowsIconExtractor;
    assert!(ex.supports("C:/x/Y.EXE"));
    assert!(ex.supports("C:/x/Y.Lnk"));
}

#[test]
fn windows_extractor_supports_filters_unrelated_extensions() {
    let ex = WindowsIconExtractor;
    assert!(ex.supports("C:/x/y.exe"));
    assert!(!ex.supports("C:/x/y.txt"));
    assert!(!ex.supports("C:/x/y.unknown"));
    assert!(ex.supports("C:/x/y"));
}

#[test]
fn windows_extractor_supports_shell_namespace() {
    let ex = WindowsIconExtractor;
    assert!(ex.supports("shell:AppsFolder\\Microsoft.WindowsCalculator"));
    assert!(ex.supports("C:\\x\\.hidden"));
}

#[test]
fn trait_extractor_path_returns_none_for_missing_file() {
    let ex = get_extractor();
    let result = ex.extract("C:/does/not/exist/totally_fake.exe", 32);
    assert!(result.is_none());
}

#[test]
fn trait_object_safety_allows_dyn_dispatch() {
    let ex: Box<dyn IconExtractor> = Box::new(WindowsIconExtractor);
    let platform = ex.platform_name();
    assert_eq!(platform, "windows");
}

#[test]
fn find_content_bounds_detects_correct_bbox() {
    let size = 16u32;
    let mut rgba = vec![0u8; (size * size * 4) as usize];
    for y in 3..8 {
        for x in 2..6 {
            let idx = ((y * size + x) * 4) as usize;
            rgba[idx + 3] = 255;
        }
    }
    let bounds = find_content_bounds(&rgba, size, size);
    assert!(bounds.is_some());
    let (left, top, right, bottom) = bounds.unwrap();
    assert_eq!(left, 2, "left 应为 2");
    assert_eq!(top, 3, "top 应为 3");
    assert_eq!(right, 5, "right 应为 5");
    assert_eq!(bottom, 7, "bottom 应为 7");
}

#[test]
fn find_content_bounds_ignores_faint_pixels() {
    let mut rgba = vec![0u8; 4 * 4 * 4];
    rgba[3] = 8;
    assert_eq!(find_content_bounds(&rgba, 4, 4), None);
    rgba[(2 * 4 + 1) * 4 + 3] = 9;
    assert_eq!(find_content_bounds(&rgba, 4, 4), Some((1, 2, 1, 2)));
}

#[test]
fn crop_rgba_extracts_correct_region() {
    let src_w = 8u32;
    let src_h = 8u32;
    let mut src = vec![0u8; (src_w * src_h * 4) as usize];
    for y in 0..src_h {
        for x in 0..src_w {
            let idx = ((y * src_w + x) * 4) as usize;
            src[idx] = x as u8;
            src[idx + 1] = y as u8;
            src[idx + 3] = 255;
        }
    }
    let cropped = crop_rgba(&src, src_w, src_h, 2, 1, 3, 2);
    assert_eq!(cropped.len(), (3 * 2 * 4) as usize);
    assert_eq!(cropped[0], 2, "R 应等于原 x=2");
    assert_eq!(cropped[1], 1, "G 应等于原 y=1");
    let row1_start = (3 * 4) as usize;
    assert_eq!(cropped[row1_start], 2, "第二行 R 应等于原 x=2");
    assert_eq!(cropped[row1_start + 1], 2, "第二行 G 应等于原 y=2");
}

#[test]
fn crop_rgba_pads_rows_outside_the_source() {
    let src = vec![7u8; 2 * 2 * 4];
    let out = crop_rgba(&src, 2, 2, 0, 1, 2, 2);
    assert_eq!(out.len(), 16);
    assert_eq!(&out[..8], &[7u8; 8]);
    assert_eq!(&out[8..], &[0u8; 8]);
    let out = crop_rgba(&src, 2, 2, 1, 0, 2, 1);
    assert_eq!(out, vec![7u8; 8]);
    let out = crop_rgba(&src, 2, 2, 1, 1, 2, 1);
    assert_eq!(out, vec![0u8; 8]);
}

#[test]
fn icon_paths_filtered_and_shortcuts_recognised() {
    assert!(!icon_path_admissible("https://example.com/a.exe"));
    assert!(!icon_path_admissible("mailto:a@b"));
    assert!(!icon_path_admissible("C:\\a\u{0}b"));
    assert!(!icon_path_admissible("C:\\\u{fffd}\u{fffd}\u{fffd}"));
    assert!(icon_path_admissible("C:\\\u{fffd}\u{fffd}.exe"));
    assert!(is_lnk_path("C:\\x\\Y.LNK"));
    assert!(!is_lnk_path("C:\\x\\y.lnkx"));
    assert!(!is_lnk_path("C:\\x\\.lnk"));
}

#[test]
fn png_encoder_produces_valid_output() {
    // 2x2 全红 RGBA
    let rgba = vec![255, 0, 0, 255, 255, 0, 0, 255, 255, 0, 0, 255, 255, 0, 0, 255];
    let png = monotools::platform::icon::encode_png(&rgba, 2, 2).expect("encode ok");
    // PNG magic: 89 50 4E 47 0D 0A 1A 0A
    assert_eq!(&png[0..8], &[0x89, 0x50, 0x4E, 0x47, 0x0D, 0x0A, 0x1A, 0x0A]);
}

#[test]
fn png_encoder_refuses_bad_sizes() {
    assert!(monotools::platform::icon::encode_png(&[0u8; 16], 0, 2).is_none());
    assert!(monotools::platform::icon::encode_png(&[0u8; 15], 2, 2).is_none());
}

#[test]
fn blank_stats_count_visible_pixels_colors_and_luma() {
    // A white opaque pixel, a transparent one, a black opaque one, a second
    // white one, and two stray bytes.
    let rgba = [255u8, 255, 255, 255, 9, 9, 9, 0, 0, 0, 0, 255, 255, 255, 255, 255, 1, 2];
    let s = blank_icon_stats(&rgba);
    assert_eq!(s.visible_pixels, 3);
    assert_eq!(s.colors, 2);
    assert_eq!(s.luma_sum, 255 + 255);
    assert_eq!(s.luma_sum_sq, 255 * 255 * 2);
    let empty = blank_icon_stats(&[]);
    assert_eq!(empty.visible_pixels, 0);
    assert_eq!(empty.colors, 0);
}

#[test]
fn blank_precheck_decides_by_counts() {
    use_precheck();
}

fn use_precheck() {
    let white = [255u8, 255, 255, 255].repeat(4);
    assert_eq!(blank_icon_precheck(&white, 1), BlankCheck::Blank);
    assert_eq!(blank_icon_precheck(&[1, 2, 3], 0), BlankCheck::Blank);
    let mut two = [255u8, 255, 255, 255].repeat(2);
    two.extend_from_slice(&[0, 0, 0, 255, 0, 0, 0, 255]);
    assert_eq!(blank_icon_precheck(&two, 5), BlankCheck::Blank);
    match blank_icon_precheck(&two, 4) {
        BlankCheck::Spread(s) => {
            assert_eq!(s.visible_pixels, 4);
            assert_eq!(s.colors, 2);
        }
        BlankCheck::Blank => panic!("expected statistics"),
    }
}
