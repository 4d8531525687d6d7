use typst_worker::diagnostic::{format_diagnostics, write_decimal, Diagnostic, Severity};
use typst_worker::output::{
    vector_output, EncodeError, OutputFormat, RasterOutput, BYTES_LIMIT, PAGE_LIMIT,
};
use typst_worker::preamble::{InvalidPageSize, InvalidTheme, PageSize, Preamble, Theme};
use typst_worker::resolution::{
    determine_pixels_per_point, to_string, Axis, Size, TooBig, DESIRED_RESOLUTION,
    MAX_PIXELS_PER_POINT, MAX_SIZE,
};

const MIB: usize = 1024 * 1024;

fn pt(points: u64) -> u64 {
    points * 1000
}

/// Runs raster output over pages that encode to `sizes` bytes.
fn run_raster(sizes: &[usize]) -> (Vec<usize>, usize, Vec<usize>) {
    let mut out = RasterOutput::new(sizes.len());
    let mut asked = Vec::new();
    while let Some(i) = out.next_page() {
        asked.push(i);
        out.add_page(vec![0u8; sizes[i]]);
    }
    let r = out.into_rendered(String::new());
    (r.images.iter().map(|v| v.len()).collect(), r.more_pages, asked)
}

#[test]
fn square_page_hits_the_cap() {
    let r = determine_pixels_per_point(Size { x: pt(100), y: pt(100) }, DESIRED_RESOLUTION);
    assert_eq!(r, Ok(30_000));
}

#[test]
fn large_square_page_density() {
    let r = determine_pixels_per_point(Size { x: pt(1000), y: pt(1000) }, DESIRED_RESOLUTION);
    assert_eq!(r, Ok(3_000));
}

#[test]
fn density_rounds_up_to_a_thousandth() {
    // 3000 / sqrt(300 * 200) = 12.2474...
    let r = determine_pixels_per_point(Size { x: pt(300), y: pt(200) }, DESIRED_RESOLUTION);
    assert_eq!(r, Ok(12_248));
}

#[test]
fn wide_page_is_too_big_on_x() {
    let r = determine_pixels_per_point(Size { x: pt(40_000), y: pt(100) }, DESIRED_RESOLUTION);
    assert_eq!(r, Err(TooBig { size: 40_000_000, axis: Axis::X }));
    let r = determine_pixels_per_point(Size { x: pt(40_000), y: MAX_SIZE }, DESIRED_RESOLUTION);
    assert_eq!(r, Err(TooBig { size: 40_000_000, axis: Axis::X }));
}

#[test]
fn x_axis_is_checked_before_y() {
    let r = determine_pixels_per_point(Size { x: pt(40_000), y: pt(50_000) }, DESIRED_RESOLUTION);
    assert_eq!(r, Err(TooBig { size: 40_000_000, axis: Axis::X }));
}

#[test]
fn tall_page_is_too_big_on_y() {
    let r = determine_pixels_per_point(Size { x: pt(10), y: MAX_SIZE + 1 }, DESIRED_RESOLUTION);
    assert_eq!(r, Err(TooBig { size: MAX_SIZE + 1, axis: Axis::Y }));
}

#[test]
fn largest_page_is_accepted() {
    let r = determine_pixels_per_point(Size { x: MAX_SIZE, y: MAX_SIZE }, DESIRED_RESOLUTION);
    assert_eq!(r, Ok(100));
}

#[test]
fn density_is_positive_and_capped() {
    let sizes = [(1, 1), (pt(1), pt(1)), (pt(595), pt(842)), (MAX_SIZE, MAX_SIZE), (0, pt(5))];
    for (x, y) in sizes {
        for desired in [1, 1000, DESIRED_RESOLUTION, u64::MAX] {
            let d = determine_pixels_per_point(Size { x, y }, desired).unwrap();
            assert!(d > 0 && d <= MAX_PIXELS_PER_POINT);
        }
    }
}

#[test]
fn zero_resolution_gives_zero_density() {
    let r = determine_pixels_per_point(Size { x: pt(100), y: pt(100) }, 0);
    assert_eq!(r, Ok(0));
}

#[test]
fn calculator_is_repeatable() {
    let s = Size { x: pt(123), y: pt(456) };
    assert_eq!(determine_pixels_per_point(s, 2_500_000), determine_pixels_per_point(s, 2_500_000));
    let t = Size { x: pt(31_000), y: pt(1) };
    assert_eq!(determine_pixels_per_point(t, 1), determine_pixels_per_point(t, 1));
}

#[test]
fn too_big_message_names_axis_and_size() {
    let m = to_string(TooBig { size: 40_000_000, axis: Axis::X });
    assert_eq!(m, "rendered output was too big: the X axis was 40000 pt but the maximum is 30000");
    let m = to_string(TooBig { size: 30_000_500, axis: Axis::Y });
    assert_eq!(m, "rendered output was too big: the Y axis was 30000.5 pt but the maximum is 30000");
    let m = to_string(TooBig { size: 30_000_025, axis: Axis::Y });
    assert!(m.contains("30000.025 pt"));
}

#[test]
fn raster_keeps_all_small_pages() {
    let (kept, more, asked) = run_raster(&[10, 20, 30]);
    assert_eq!(kept, vec![10, 20, 30]);
    assert_eq!(more, 0);
    assert_eq!(asked, vec![0, 1, 2]);
}

#[test]
fn raster_stops_at_page_limit() {
    let (kept, more, asked) = run_raster(&[1; 8]);
    assert_eq!(kept.len(), PAGE_LIMIT);
    assert_eq!(more, 3);
    assert_eq!(asked, vec![0, 1, 2, 3, 4]);
}

#[test]
fn raster_byte_budget_truncates() {
    let (kept, more, asked) = run_raster(&[10 * MIB, 10 * MIB, 10 * MIB, MIB, MIB]);
    assert_eq!(kept, vec![10 * MIB, 10 * MIB]);
    assert_eq!(more, 3);
    assert_eq!(asked, vec![0, 1, 2]);
}

#[test]
fn raster_budget_is_inclusive() {
    let (kept, more, _) = run_raster(&[BYTES_LIMIT - 1, 1, 1]);
    assert_eq!(kept, vec![BYTES_LIMIT - 1, 1]);
    assert_eq!(more, 1);
}

#[test]
fn raster_of_no_pages() {
    let (kept, more, asked) = run_raster(&[]);
    assert!(kept.is_empty());
    assert_eq!(more, 0);
    assert!(asked.is_empty());
}

#[test]
fn raster_pages_are_encoded_as_png() {
    let mut out = RasterOutput::new(2);
    let pixels = [255u8, 0, 0, 255, 0, 0, 255, 255];
    assert_eq!(out.add_png_page(&pixels, 2, 1), Ok(()));
    assert_eq!(out.next_page(), Some(1));
    assert_eq!(out.add_png_page(&pixels, 1, 2), Ok(()));
    assert_eq!(out.next_page(), None);
    let r = out.into_rendered(String::new());
    assert_eq!(r.images.len(), 2);
    for png in &r.images {
        assert_eq!(png[..8], [137, 80, 78, 71, 13, 10, 26, 10]);
        assert_ne!(png[..], pixels[..]);
    }
    assert_ne!(r.images[0], r.images[1]);
    assert_eq!(r.more_pages, 0);
}

#[test]
fn empty_pixmap_fails_to_encode_and_changes_nothing() {
    let mut out = RasterOutput::new(1);
    assert_eq!(out.add_png_page(&[], 0, 3), Err(EncodeError));
    assert_eq!(out.next_page(), Some(0));
    assert_eq!(out.add_png_page(&[0, 0, 0, 0], 1, 1), Ok(()));
    assert_eq!(out.next_page(), None);
    let r = out.into_rendered(String::new());
    assert_eq!(r.images.len(), 1);
}

#[test]
fn raster_keeps_warnings() {
    let mut out = RasterOutput::new(1);
    out.add_page(vec![1, 2, 3]);
    assert_eq!(out.next_page(), None);
    let r = out.into_rendered("warning: x\n".to_string());
    assert_eq!(r.images, vec![vec![1, 2, 3]]);
    assert_eq!(r.warnings, "warning: x\n");
}

#[test]
fn vector_output_is_one_blob() {
    for n in [1usize, 2, 5, 12] {
        let r = vector_output(n, vec![7, 7], String::from("w"));
        assert_eq!(r.images, vec![vec![7, 7]]);
        assert_eq!(r.more_pages, n - 1);
        assert_eq!(r.warnings, "w");
    }
}

#[test]
fn output_format_selection() {
    assert_eq!(OutputFormat::default(), OutputFormat::Png);
    assert_eq!(OutputFormat::from_name(Some("pdf")), OutputFormat::Pdf);
    assert_eq!(OutputFormat::from_name(Some("png")), OutputFormat::Png);
    assert_eq!(OutputFormat::from_name(Some("svg")), OutputFormat::Png);
    assert_eq!(OutputFormat::from_name(None), OutputFormat::Png);
    assert_eq!(OutputFormat::Png.name(), "png");
    assert_eq!(OutputFormat::Pdf.name(), "pdf");
    assert_eq!(OutputFormat::Png.resolution(None), Some(DESIRED_RESOLUTION));
    assert_eq!(OutputFormat::Png.resolution(Some(5)), Some(5));
    assert_eq!(OutputFormat::Pdf.resolution(Some(5)), None);
}

fn diag(severity: Severity, offset: Option<usize>, message: &str) -> Diagnostic {
    Diagnostic { severity, offset, message: message.to_string() }
}

#[test]
fn no_diagnostics_format_to_nothing() {
    assert_eq!(format_diagnostics("abc", &Vec::new()), "");
}

#[test]
fn one_diagnostic_names_its_place() {
    let ds = vec![diag(Severity::Error, Some(5), "unknown variable")];
    assert_eq!(format_diagnostics("ab\ncd", &ds), "error: 2:3: unknown variable\n");
}

#[test]
fn diagnostics_in_order() {
    let src = "#let x = 1\n#y\n";
    let ds = vec![
        diag(Severity::Warning, Some(0), "first"),
        diag(Severity::Error, Some(12), "second"),
    ];
    assert_eq!(format_diagnostics(src, &ds), "warning: 1:1: first\nerror: 2:2: second\n");
}

#[test]
fn columns_count_characters() {
    let ds = vec![diag(Severity::Error, Some(3), "m")];
    assert_eq!(format_diagnostics("\u{e9}x!", &ds), "error: 1:3: m\n");
}

#[test]
fn unresolvable_place_gets_placeholder() {
    let ds = vec![
        diag(Severity::Error, Some(99), "far"),
        diag(Severity::Warning, None, "nowhere"),
    ];
    assert_eq!(format_diagnostics("abc", &ds), "error: ?:?: far\nwarning: ?:?: nowhere\n");
}

#[test]
fn decimals() {
    let mut s = String::from("n=");
    write_decimal(&mut s, 0);
    assert_eq!(s, "n=0");
    write_decimal(&mut s, 1234567);
    assert_eq!(s, "n=01234567");
}

#[test]
fn themes_parse() {
    assert_eq!(Theme::from_str("transparent"), Ok(Theme::Transparent));
    assert_eq!(Theme::from_str("t"), Ok(Theme::Transparent));
    assert_eq!(Theme::from_str("light"), Ok(Theme::Light));
    assert_eq!(Theme::from_str("l"), Ok(Theme::Light));
    assert_eq!(Theme::from_str("dark"), Ok(Theme::Dark));
    assert_eq!(Theme::from_str("d"), Ok(Theme::Dark));
    assert_eq!(Theme::from_str("Dark"), Err(InvalidTheme));
    assert_eq!(Theme::from_str(""), Err(InvalidTheme));
    assert_eq!(Theme::default(), Theme::Dark);
}

#[test]
fn page_sizes_parse() {
    assert_eq!(PageSize::from_str("preview"), Ok(PageSize::Preview));
    assert_eq!(PageSize::from_str("p"), Ok(PageSize::Preview));
    assert_eq!(PageSize::from_str("auto"), Ok(PageSize::Auto));
    assert_eq!(PageSize::from_str("a"), Ok(PageSize::Auto));
    assert_eq!(PageSize::from_str("default"), Ok(PageSize::Default));
    assert_eq!(PageSize::from_str("d"), Ok(PageSize::Default));
    assert_eq!(PageSize::from_str("x"), Err(InvalidPageSize));
    assert_eq!(PageSize::default(), PageSize::Preview);
}

#[test]
fn default_preamble_text() {
    let p = Preamble::default();
    assert_eq!(
        p.preamble(),
        "// Begin preamble\n// Page size:\n#set page(width: 300pt, height: auto, margin: 10pt)\n\
         // Theme:\n#set page(fill: rgb(49, 51, 56))\n#set text(fill: rgb(219, 222, 225))\n\
         // End preamble\n"
    );
}

#[test]
fn empty_preamble() {
    let p = Preamble { page_size: PageSize::Default, theme: Theme::Transparent };
    assert_eq!(p.preamble(), "");
    assert_eq!(p.apply("= Hi"), "= Hi");
}

#[test]
fn preamble_goes_before_code() {
    let p = Preamble { page_size: PageSize::Auto, theme: Theme::Light };
    assert_eq!(
        p.apply("= Hi"),
        "// Begin preamble\n// Page size:\n#set page(width: auto, height: auto, margin: 10pt)\n\
         // Theme:\n#set page(fill: white)\n// End preamble\n= Hi"
    );
    let q = Preamble { page_size: PageSize::Default, theme: Theme::Light };
    assert_eq!(
        q.preamble(),
        "// Begin preamble\n// Page size:\n// Theme:\n#set page(fill: white)\n// End preamble\n"
    );
}
