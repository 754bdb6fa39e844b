use moreland::capture::session::BufferMode;
use moreland::probe::{
    capture_config, drain_ends, has_drained, looks_again, missing_bytes, parse_args, pull_wait_ms,
    received_bytes, synthetic_frame_size,
};
use moreland::stats::{pacing, summarise, to_rgb, write_png, NotAPicture, Summary};

fn words(line: &str) -> Vec<String> {
    line.split(' ').filter(|w| !w.is_empty()).map(String::from).collect()
}

#[test]
fn capture_probe_arguments() {
    let a = parse_args(&words(""));
    assert_eq!((a.output, a.mode, a.frames), (None, BufferMode::Dmabuf, 120));
    let a = parse_args(&words("first --shm --frames 7 --png out.png --any-modifier moreland"));
    assert_eq!(a.output.as_deref(), Some("moreland"));
    assert_eq!((a.mode, a.frames, a.any_modifier), (BufferMode::Shm, 7, true));
    assert_eq!(a.png.as_deref(), Some("out.png"));
    assert!(capture_config(&a).allowed_modifiers.is_empty());
    let a = parse_args(&words("--shm --dmabuf --frames many --png"));
    assert_eq!((a.mode, a.frames, a.png.is_none()), (BufferMode::Dmabuf, 120, true));
    let c = capture_config(&a);
    assert_eq!((c.pool_size, c.allowed_modifiers, c.paint_cursor), (2, vec![0], false));
}

#[test]
fn synthetic_frames() {
    let sizes: Vec<usize> = [0, 1, 7, 600, 601].iter().map(|i| synthetic_frame_size(*i)).collect();
    assert_eq!(sizes, [108_943, 32_357, 45_000, 108_943, 32_357]);
}

#[test]
fn delivery() {
    assert_eq!(received_bytes(" 1234\r\n"), 1234);
    assert_eq!(received_bytes("stat: no such file"), 0);
    assert!(has_drained(5, 5) && !has_drained(0, 0) && !has_drained(4, 5));
    assert_eq!((missing_bytes(10, 4), missing_bytes(4, 10)), (6, 0));
}

#[test]
fn summaries() {
    assert_eq!(summarise(&vec![]), None);
    assert_eq!(
        summarise(&vec![5]),
        Some(Summary { min: 5, median: 5, p95: 5, max: 5 })
    );
    assert_eq!(
        summarise(&vec![9, 1, 5, 3]),
        Some(Summary { min: 1, median: 5, p95: 9, max: 9 })
    );
    assert_eq!(pacing(&vec![10, 25, 20, 50]), [15, 0, 30]);
    assert!(pacing(&vec![]).is_empty() && pacing(&vec![3]).is_empty());
}

#[test]
fn pictures() {
    // Two by two pixels with four bytes of padding per line.
    let pixels = [
        1, 2, 3, 0, 4, 5, 6, 0, 99, 99, 99, 99, //
        7, 8, 9, 0, 10, 11, 12, 0, 99, 99, 99, 99,
    ];
    let rgb = to_rgb(&pixels, 12, 2, 2);
    assert_eq!(rgb, [3, 2, 1, 6, 5, 4, 9, 8, 7, 12, 11, 10]);
    let file = write_png(&pixels, 12, 2, 2).unwrap();
    assert_eq!(&file[..8], b"\x89PNG\r\n\x1a\n");
    let mut reader = png::Decoder::new(std::io::Cursor::new(file)).read_info().unwrap();
    let mut out = vec![0; 64];
    let info = reader.next_frame(&mut out).unwrap();
    assert_eq!((info.width, info.height), (2, 2));
    assert_eq!(info.color_type, png::ColorType::Rgb);
    assert_eq!(&out[..12], &rgb[..]);
    assert_eq!(write_png(&[], 0, 0, 0), Err(NotAPicture));
}

#[test]
fn draining_and_looking() {
    assert_eq!((pull_wait_ms(false), pull_wait_ms(true)), (100, 200));
    assert!(drain_ends(true, false));
    assert!(!drain_ends(true, true) && !drain_ends(false, false) && !drain_ends(false, true));
    assert!(looks_again(0, false) && looks_again(39, false));
    assert!(!looks_again(40, false) && !looks_again(0, true));
}
