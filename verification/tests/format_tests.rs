use lumen_grabber::formats::{
    collect_formats, format_label_exec, mb_tenths_exec, size_label_exec, FormatSource,
};

fn size_text(size: u64) -> String {
    size_label_exec(Some(size)).iter().collect()
}

fn float_text(size: u64) -> String {
    let mb = size as f64 / (1024.0 * 1024.0);
    format!(" ({:.1} MB)", mb)
}

#[test]
fn size_label_agrees_with_float_formatting() {
    let mut sizes: Vec<u64> = vec![
        0, 1, 52_428, 52_429, 104_857, 262_144, 786_432, 1_310_720, 1_048_576, 10_485_760,
        52_428_800, 123_456_789, 1 << 40, (1 << 53) - 1, 1 << 53, (1 << 53) + 1,
        (1 << 53) + 3, (1 << 54) + 2, (1 << 54) + 6, u64::MAX, u64::MAX - 1024, 1 << 63,
    ];
    let mut x: u64 = 0x9e37_79b9_7f4a_7c15;
    for _ in 0..20_000 {
        x = x.wrapping_mul(6364136223846793005).wrapping_add(1442695040888963407);
        sizes.push(x);
        sizes.push(x >> 20);
        sizes.push(x >> 35);
        sizes.push((x >> 44) << 18);
    }
    for size in sizes {
        assert_eq!(size_text(size), float_text(size), "size {}", size);
    }
}

#[test]
fn size_label_exact_values() {
    assert_eq!(mb_tenths_exec(52_428_800), 500);
    assert_eq!(size_text(52_428_800), " (50.0 MB)");
    assert_eq!(size_text(1_310_720), " (1.2 MB)");
    assert_eq!(size_text(262_144), " (0.2 MB)");
    assert_eq!(size_text(786_432), " (0.8 MB)");
    assert!(size_label_exec(None).is_empty());
}

#[test]
fn labels_name_the_common_heights() {
    assert_eq!(format_label_exec(2160, None), "4K (2160p)");
    assert_eq!(format_label_exec(1440, None), "2K (1440p)");
    assert_eq!(format_label_exec(1080, Some(104_857_600)), "1080p (Full HD) (100.0 MB)");
    assert_eq!(format_label_exec(720, None), "720p (HD)");
    assert_eq!(format_label_exec(480, Some(10_485_760)), "480p (10.0 MB)");
    assert_eq!(format_label_exec(144, None), "144p");
}

fn src(height: Option<u64>, filesize: Option<u64>) -> FormatSource {
    FormatSource { height, filesize }
}

#[test]
fn formats_are_listed_once_highest_first() {
    let sources = vec![
        src(Some(360), Some(1_048_576)),
        src(None, Some(5)),
        src(Some(1080), None),
        src(Some(0), Some(9)),
        src(Some(360), Some(99_999_999)),
        src(Some(2160), Some(52_428_800)),
        src(Some(720), None),
        src(Some((1u64 << 32) + 480), None),
        src(Some(1u64 << 32), None),
    ];
    let items = collect_formats(&sources);
    let heights: Vec<u32> = items.iter().map(|i| i.height).collect();
    assert_eq!(heights, vec![2160, 1080, 720, 480, 360]);
    let labels: Vec<&str> = items.iter().map(|i| i.label.as_str()).collect();
    assert_eq!(
        labels,
        vec!["4K (2160p) (50.0 MB)", "1080p (Full HD)", "720p (HD)", "480p", "360p (1.0 MB)"]
    );
    assert_eq!(items[4].filesize, Some(1_048_576));
    assert_eq!(items[0].filesize, Some(52_428_800));
}

#[test]
fn no_formats_gives_empty_list() {
    assert!(collect_formats(&vec![]).is_empty());
    assert!(collect_formats(&vec![src(None, None), src(Some(0), None)]).is_empty());
}
