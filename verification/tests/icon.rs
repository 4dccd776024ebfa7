use oh_tray::config::AppConfig;
use oh_tray::icon::{
    circle_rgba, decode_file, extension_of, get_menu_icon, has_broken_palette, icon_from_decoded,
    load_icon, IconImage,
};

fn config(icon: &str) -> AppConfig {
    AppConfig { title: String::new(), icon: icon.to_string(), groups: vec![] }
}

/// A picture of two pixels, red and green.
fn ppm() -> Vec<u8> {
    let mut data = b"P6\n2 1\n255\n".to_vec();
    data.extend_from_slice(&[255, 0, 0, 0, 255, 0]);
    data
}

fn ppm_rgba() -> Vec<u8> {
    vec![255, 0, 0, 255, 0, 255, 0, 255]
}

/// A picture of one grey pixel.
fn pgm() -> Vec<u8> {
    let mut data = b"P5\n1 1\n255\n".to_vec();
    data.push(77);
    data
}

#[test]
fn a_disc_is_drawn_by_distance() {
    let pixels = circle_rgba(10, 20, 30);
    assert_eq!(pixels.len(), 32 * 32 * 4);
    for y in 0..32usize {
        for x in 0..32usize {
            let dx = x as f32 - 16.0;
            let dy = y as f32 - 16.0;
            let at = (y * 32 + x) * 4;
            if (dx * dx + dy * dy).sqrt() < 14.0 {
                assert_eq!(&pixels[at..at + 4], &[10, 20, 30, 255]);
            } else {
                assert_eq!(&pixels[at..at + 4], &[0, 0, 0, 0]);
            }
        }
    }
}

#[test]
fn the_edge_of_the_disc_is_outside() {
    let pixels = circle_rgba(1, 2, 3);
    let at = |x: usize, y: usize| pixels[(y * 32 + x) * 4 + 3];
    assert_eq!(at(2, 16), 0);
    assert_eq!(at(3, 16), 255);
    assert_eq!(at(29, 16), 255);
    assert_eq!(at(30, 16), 0);
}

#[test]
fn marks_tell_the_states_apart() {
    let on = get_menu_icon(true);
    let off = get_menu_icon(false);
    assert_eq!((on.width, on.height), (32, 32));
    assert_eq!((off.width, off.height), (32, 32));
    assert_eq!(on.rgba, circle_rgba(0, 200, 0));
    assert_eq!(off.rgba, circle_rgba(200, 0, 0));
    assert_ne!(on.rgba, off.rgba);
}

#[test]
fn a_picture_needs_four_bytes_for_each_pixel() {
    assert!(IconImage::from_rgba(vec![0; 8], 2, 1).is_some());
    assert!(IconImage::from_rgba(vec![0; 8], 1, 2).is_some());
    assert!(IconImage::from_rgba(vec![0; 7], 2, 1).is_none());
    assert!(IconImage::from_rgba(vec![0; 8], 1, 1).is_none());
    assert!(IconImage::from_rgba(vec![], 0, 9).is_some());
    assert!(IconImage::from_rgba(vec![0; 4], u32::MAX, u32::MAX).is_none());
}

#[test]
fn what_was_decoded_becomes_a_picture() {
    assert!(icon_from_decoded(None).is_none());
    assert!(icon_from_decoded(Some((vec![1, 2, 3], 1, 1))).is_none());
    let icon = icon_from_decoded(Some((vec![1, 2, 3, 4], 1, 1))).unwrap();
    assert_eq!(icon.rgba, vec![1, 2, 3, 4]);
    assert_eq!((icon.width, icon.height), (1, 1));
}

#[test]
fn the_built_in_icon_is_decoded_by_its_content() {
    let icon = load_icon(&ppm()).unwrap();
    assert_eq!((icon.width, icon.height), (2, 1));
    assert_eq!(icon.rgba, ppm_rgba());
    assert!(load_icon(b"no picture").is_none());
    assert!(load_icon(b"").is_none());
    assert!(load_icon(&broken_png()).is_none());
}

#[test]
fn the_configured_icon_is_decoded_by_its_extension() {
    for path in [
        "a/b.PPM",
        "a.ppm",
        "x.y/a.b.pnm",
        "icons\\tray.ppm",
        "/srv/a.pam",
        "\\\\server\\share\\tray.ppm",
        "//server/share/a.ppm",
        "x.ppm/.",
        "x.ppm/",
        "x.ppm/.//",
        "//server/share/a.ppm/",
    ] {
        let icon = config(path).load_icon(Some(&ppm()), &pgm()).unwrap();
        assert_eq!((icon.width, icon.height), (2, 1));
        assert_eq!(icon.rgba, ppm_rgba());
    }
}

#[test]
fn files_are_decoded_under_their_extension() {
    assert_eq!(decode_file(Some("ppm".to_string()), &ppm()), Some((ppm_rgba(), 2, 1)));
    assert_eq!(decode_file(Some("png".to_string()), &ppm()), None);
    assert_eq!(decode_file(Some(String::new()), &ppm()), None);
    assert_eq!(decode_file(None, &ppm()), None);
}

#[test]
fn the_built_in_icon_stands_in_for_every_failure() {
    let builtin = vec![77, 77, 77, 255];
    for (path, file) in [
        ("", Some(ppm())),
        ("a.ppm", None),
        ("a.ppm", Some(b"no picture".to_vec())),
        ("a.png", Some(ppm())),
        ("a.txt", Some(ppm())),
        ("a", Some(ppm())),
        ("./a", Some(ppm())),
        ("x.ppm/a", Some(ppm())),
        (".ppm", Some(ppm())),
        ("x/.ppm", Some(ppm())),
        ("x.ppm/..", Some(ppm())),
        (".", Some(ppm())),
        ("ppm.", Some(ppm())),
        ("a.exr", Some(ppm())),
        ("a.jpg", Some(ppm())),
        ("a.png", Some(broken_png())),
        ("a.ico", Some(broken_png())),
    ] {
        let icon = config(path).load_icon(file.as_deref(), &pgm()).unwrap();
        assert_eq!((icon.width, icon.height), (1, 1));
        assert_eq!(icon.rgba, builtin);
    }
}

#[test]
fn no_icon_comes_of_two_failures() {
    assert!(config("a.ppm").load_icon(None, b"").is_none());
}

#[test]
fn the_configured_icon_needs_a_path() {
    let decoded = || Some((vec![1, 2, 3, 4], 1, 1));
    assert!(config("").pick_icon(decoded()).is_none());
    assert!(config("x").pick_icon(None).is_none());
    assert!(config("x").pick_icon(Some((vec![1], 1, 1))).is_none());
    assert_eq!(config("x").pick_icon(decoded()).unwrap().rgba, vec![1, 2, 3, 4]);
}

/// A PNG picture of two pixels with a palette of two colours.
fn png() -> Vec<u8> {
    vec![
        137, 80, 78, 71, 13, 10, 26, 10, 0, 0, 0, 13, 73, 72, 68, 82,
        0, 0, 0, 2, 0, 0, 0, 1, 8, 3, 0, 0, 0, 195, 252, 143,
        184, 0, 0, 0, 6, 80, 76, 84, 69, 1, 2, 3, 200, 100, 50, 80,
        180, 174, 63, 0, 0, 0, 14, 73, 68, 65, 84, 120, 1, 1, 3, 0,
        252, 255, 0, 1, 0, 0, 5, 0, 2, 252, 223, 27, 83, 0, 0, 0,
        0, 73, 69, 78, 68, 174, 66, 96, 130,
    ]
}

/// The same with a palette that lacks its last byte.
fn broken_png() -> Vec<u8> {
    let mut data = png();
    data[36] = 5;
    data
}

#[test]
fn png_pictures_are_decoded_by_name_and_by_content() {
    let rgba = vec![200, 100, 50, 255, 1, 2, 3, 255];
    assert_eq!(decode_file(Some("png".to_string()), &png()), Some((rgba.clone(), 2, 1)));
    let icon = load_icon(&png()).unwrap();
    assert_eq!((icon.rgba, icon.width, icon.height), (rgba, 2, 1));
}

#[test]
fn broken_palettes_are_found_in_png_pictures_alone() {
    assert!(!has_broken_palette(&png()));
    assert!(has_broken_palette(&broken_png()));
    let mut inside = vec![0, 0, 1, 0];
    inside.extend(broken_png());
    assert!(has_broken_palette(&inside));
    assert!(!has_broken_palette(&broken_png()[1..]));
    assert!(!has_broken_palette(&broken_png()[..40]));
    assert!(has_broken_palette(&broken_png()[..41]));
    for (high, low, broken) in [
        (0, 2, false),
        (0, 3, false),
        (0, 4, true),
        (2, 255, true),
        (3, 0, false),
        (3, 1, false),
    ] {
        let mut data = png();
        data[35] = high;
        data[36] = low;
        assert_eq!(has_broken_palette(&data), broken);
    }
    assert!(!has_broken_palette(b""));
}

#[test]
fn extensions_are_read_alike_on_every_system() {
    for (path, ext) in [
        ("a.png", Some("png")),
        ("a.tar.gz/", Some("gz")),
        ("a.png/./", Some("png")),
        ("a.", Some("")),
        ("a./.", Some("")),
        (".a.", Some("")),
        ("..png", Some("png")),
        ("//server/share/.a", None),
        ("a/..", None),
        ("/.", None),
        ("/", None),
        ("", None),
        ("..", None),
        (".png", None),
    ] {
        assert_eq!(extension_of(path).as_deref(), ext);
    }
}
