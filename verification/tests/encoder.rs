use moreland::encoder::{
    check_bus, collect_modifiers, fourcc_name, modifiers_for, parse_drm_format, pipeline,
    select_backend,
    supported_modifiers, Backend, BusMessage, Caps, Element, Encoder, EncoderConfig, Field,
    FormatValue, PadTemplate, Property, XR24,
};

fn text(s: &str) -> FormatValue {
    FormatValue::Text(s.to_string())
}

fn find<'a>(element: &'a Element, name: &str) -> &'a Property {
    &element.properties.iter().find(|p| p.0 == name).unwrap().1
}

fn caps(element: &Element) -> &Caps {
    match find(element, "caps") {
        Property::Caps(caps) => caps,
        other => panic!("got {other:?}"),
    }
}

fn factories(encoder: &Encoder) -> Vec<&str> {
    encoder.elements.iter().map(|e| e.factory.as_str()).collect()
}

#[test]
fn backends() {
    assert_eq!(select_backend(true), Backend::NvencGl);
    assert_eq!(select_backend(false), Backend::Vaapi);
    assert!(Backend::Vaapi.describe().starts_with("VA-API"));
    assert!(Backend::NvencGl.describe().starts_with("NVENC"));
}

#[test]
fn fourcc_names() {
    assert_eq!(XR24, u32::from_le_bytes(*b"XR24"));
    assert_eq!(fourcc_name(XR24), "XR24");
    assert_eq!(fourcc_name(u32::from_le_bytes([b'A', 0xff, b'B', b' '])), "A\u{fffd}B ");
}

#[test]
fn formats() {
    assert_eq!(parse_drm_format("XR24:0x0200000000000901", "XR24"), Some(0x0200_0000_0000_0901));
    assert_eq!(parse_drm_format("  XR24 : 7 ", "XR24"), Some(7));
    assert_eq!(parse_drm_format("XR24", "XR24"), Some(0));
    assert_eq!(parse_drm_format("AR24:0x1", "XR24"), None);
    assert_eq!(parse_drm_format("XR24:0xzz", "XR24"), None);
    assert_eq!(parse_drm_format("XR24:", "XR24"), None);
    assert_eq!(parse_drm_format("XR24:18446744073709551616", "XR24"), None);
    assert_eq!(parse_drm_format("XR24:0x+a", "XR24"), Some(10));
}

#[test]
fn modifiers_are_collected_once_each() {
    let mut out = vec![5];
    collect_modifiers(
        &FormatValue::List(vec![
            text("XR24:0x5"),
            FormatValue::Other,
            FormatValue::List(vec![text("XR24:9"), text("AR24:8")]),
            text("XR24:0x9"),
        ]),
        "XR24",
        &mut out,
    );
    assert_eq!(out, [5, 9]);
}

#[test]
fn linear_is_always_supported() {
    assert_eq!(supported_modifiers(XR24, &vec![]), [0]);
    let templates = vec![
        PadTemplate { sink: false, formats: vec![text("XR24:0x1")] },
        PadTemplate { sink: true, formats: vec![text("XR24:0x2"), text("XR24"), text("XR24:0x3")] },
    ];
    assert_eq!(supported_modifiers(XR24, &templates), [2, 0, 3]);
    assert_eq!(modifiers_for("AR24", &templates), [0]);
}

#[test]
fn config_defaults() {
    let c = EncoderConfig::default();
    assert_eq!((c.width, c.height, c.framerate, c.bitrate_kbps), (1920, 1200, 60, 20_000));
    assert_eq!((c.fourcc, c.modifier), (XR24, 0x0200_0000_0000_0901));
    assert_eq!((c.keyframe_interval, c.target_usage, c.num_slices), (600, 3, 1));
    assert!(c.cabac);
    assert_eq!(c.rate_control, "vbr");
}

#[test]
fn vaapi_pipeline() {
    let config = EncoderConfig { bitrate_kbps: 9001, ..EncoderConfig::default() };
    let encoder = Encoder::new(&config, false);
    assert_eq!(
        factories(&encoder),
        ["appsrc", "vapostproc", "capsfilter", "vah264enc", "h264parse", "capsfilter", "appsink"]
    );
    assert_eq!(encoder.frame_size, 1920 * 1200 * 4);
    let source = caps(&encoder.elements[0]);
    assert_eq!(source.media, "video/x-raw");
    assert_eq!(source.feature.as_deref(), Some("memory:DMABuf"));
    let fields: Vec<String> = source.fields.iter().map(|f| format!("{}={:?}", f.0, f.1)).collect();
    assert_eq!(
        fields,
        [
            "format=Text(\"DMA_DRM\")",
            "drm-format=Text(\"XR24:0x0200000000000901\")",
            "width=Int(1920)",
            "height=Int(1200)",
            "framerate=Fraction(60, 1)",
        ]
    );
    assert_eq!(caps(&encoder.elements[2]).feature.as_deref(), Some("memory:VAMemory"));
    let enc = &encoder.elements[3];
    assert!(matches!(find(enc, "bitrate"), Property::U32(9001)));
    assert!(matches!(find(enc, "cpb-size"), Property::U32(4500)));
    assert!(matches!(find(enc, "b-frames"), Property::U32(0)));
    assert!(matches!(find(enc, "rate-control"), Property::Named(s) if s == "vbr"));
    assert!(matches!(find(enc, "aud"), Property::Flag(true)));
    assert_eq!(enc.properties.len(), 10);
    assert!(matches!(find(&encoder.elements[4], "config-interval"), Property::I32(-1)));
    assert!(matches!(find(&encoder.elements[6], "drop"), Property::Flag(false)));
    assert!(matches!(&caps(&encoder.elements[5]).fields[1].1, Field::Text(s) if s == "au"));
}

#[test]
fn nvenc_pipeline() {
    let config = EncoderConfig { keyframe_interval: 42, ..EncoderConfig::default() };
    let named = pipeline(&config, Backend::NvencGl, "NAME");
    assert!(matches!(&caps(&named[0]).fields[1].1, Field::Text(s) if s == "NAME:0x0200000000000901"));
    let encoder = Encoder::new(&config, true);
    assert_eq!(
        factories(&encoder),
        [
            "appsrc",
            "glupload",
            "glcolorconvert",
            "gldownload",
            "capsfilter",
            "nvh264enc",
            "h264parse",
            "capsfilter",
            "appsink"
        ]
    );
    assert_eq!(caps(&encoder.elements[4]).feature, None);
    assert!(matches!(find(&encoder.elements[5], "gop-size"), Property::I32(42)));
    assert!(matches!(find(&encoder.elements[5], "zerolatency"), Property::Flag(true)));
}

#[test]
fn frames_and_packets() {
    assert_eq!(Encoder::push_frame(16, 7680), (16, 7680));
    assert_eq!(Encoder::push_frame(0, u32::MAX), (0, -1));
    let p = Encoder::pull_packet(vec![1, 2], Some(5), false);
    assert_eq!((p.data, p.pts_ns, p.keyframe), (vec![1, 2], 5, true));
    let p = Encoder::pull_packet(vec![], None, true);
    assert_eq!((p.pts_ns, p.keyframe), (0, false));
}

#[test]
fn the_first_error_is_reported() {
    assert_eq!(check_bus(&vec![BusMessage::Other]), None);
    let messages = vec![
        BusMessage::Other,
        BusMessage::Error(Some("/p/enc".to_string()), "boom".to_string(), None),
        BusMessage::Error(None, "later".to_string(), None),
    ];
    assert_eq!(
        check_bus(&messages).as_deref(),
        Some("pipeline error from /p/enc: boom ()")
    );
}
