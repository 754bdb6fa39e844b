//! Hardware H.264 encoding of captured DMA-BUF frames.
//!
//! Two hardware backends, selected from what GStreamer has registered. Both
//! accept the DMA-BUF the compositor wrote into, and both produce the same
//! Annex-B stream.
//!
//! ```text
//! VA-API (AMD VCN, Intel QuickSync)
//!   appsrc -> vapostproc -> vah264enc
//!
//! NVENC via GL (NVIDIA)
//!   appsrc -> glupload -> glcolorconvert -> gldownload -> nvh264enc
//! ```
//!
//! On NVIDIA the buffers are tiled, and `glupload` is the one importer that
//! reads the modifier and has the driver import the buffer accordingly.
//!
//! The pipelines are described here as data; whoever runs GStreamer builds them
//! as described.

use vstd::prelude::*;
use vstd::slice::slice_subrange;

use crate::number::{
    hex_padded, hex_round_trip, parse_unsigned, parsed, push_hex, to_signed, wrapped,
};
use crate::text::{
    begins_with, chars_of, find_char, index_of, is_space, is_text, joined, lemma_index_of_unique,
    lemma_map_push, lemma_nothing_to_trim, lossy, lossy_text, starts_with, trim, trimmed,
};

verus! {

/// Which hardware encoder to drive.
///
/// `nvh264enc` wins when present because on NVIDIA systems there is no usable
/// VA-API encode path.
#[derive(Debug, Clone, Copy, PartialEq, Eq, Structural)]
pub enum Backend {
    /// AMD VCN, Intel QuickSync.
    Vaapi,
    /// NVIDIA NVENC, with a tiling-aware DMA-BUF import.
    NvencGl,
}

/// The backend to use, given whether `nvh264enc` is registered.
pub fn select_backend(nvenc_registered: bool) -> (r: Backend)
    ensures
        r == if nvenc_registered {
            Backend::NvencGl
        } else {
            Backend::Vaapi
        },
{
    if nvenc_registered {
        Backend::NvencGl
    } else {
        Backend::Vaapi
    }
}

impl Backend {
    pub fn describe(self) -> (r: &'static str)
        ensures
            r@ == match self {
                Backend::Vaapi => "VA-API (vapostproc + vah264enc), zero copy"@,
                Backend::NvencGl =>
                    "NVENC via GL (glupload + glcolorconvert + gldownload + nvh264enc)"@,
            },
    {
        match self {
            Backend::Vaapi => "VA-API (vapostproc + vah264enc), zero copy",
            Backend::NvencGl => "NVENC via GL (glupload + glcolorconvert + gldownload + nvh264enc)",
        }
    }
}

// --------------------------------------------------------------- modifiers ---

/// The four bytes of a fourcc, in the order in which they are read.
pub open spec fn fourcc_bytes(code: u32) -> Seq<u8> {
    seq![
        (code % 0x100) as u8,
        (code / 0x100 % 0x100) as u8,
        (code / 0x1_0000 % 0x100) as u8,
        (code / 0x100_0000 % 0x100) as u8,
    ]
}

/// A fourcc as text.
pub fn fourcc_name(code: u32) -> (r: String)
    ensures
        r@ == lossy_text(fourcc_bytes(code)),
        vstd::utf8::valid_utf8(fourcc_bytes(code)) ==> r@ == vstd::utf8::decode_utf8(
            fourcc_bytes(code),
        ),
{
    let bytes: [u8; 4] = [
        (code % 0x100) as u8,
        (code / 0x100 % 0x100) as u8,
        (code / 0x1_0000 % 0x100) as u8,
        (code / 0x100_0000 % 0x100) as u8,
    ];
    assert(bytes@ =~= fourcc_bytes(code));
    lossy(bytes.as_slice())
}

/// What a `drm-format` in the caps of a pad holds: one format, or a list.
#[derive(Debug)]
pub enum FormatValue {
    Text(String),
    List(Vec<FormatValue>),
    /// Neither text nor a list.
    Other,
}

/// One pad template of an element.
#[derive(Debug)]
pub struct PadTemplate {
    /// Whether frames go in there.
    pub sink: bool,
    /// The `drm-format` of each structure of its caps that has one.
    pub formats: Vec<FormatValue>,
}

/// A modifier in hexadecimal after `0x`, or in decimal.
pub open spec fn modifier_of(text: Seq<char>) -> Option<u64> {
    let hex: Option<nat> = if begins_with(text, "0x"@) {
        parsed(text.skip(2), 16, u64::MAX as nat)
    } else {
        None
    };
    match hex {
        Some(n) => Some(n as u64),
        None => match parsed(text, 10, u64::MAX as nat) {
            Some(n) => Some(n as u64),
            None => None,
        },
    }
}

/// The modifier of a `FOURCC:MODIFIER` whose fourcc is `wanted`; a fourcc alone
/// stands for the linear one.
pub open spec fn drm_format_modifier(text: Seq<char>, wanted: Seq<char>) -> Option<u64> {
    let s = trimmed(text);
    let at = index_of(s, ':');
    let (fourcc, modifier) = if at < s.len() {
        (s.take(at), s.skip(at + 1))
    } else {
        (s, "0"@)
    };
    if trimmed(fourcc) == wanted {
        modifier_of(trimmed(modifier))
    } else {
        None
    }
}

fn parse_modifier(cs: &[char]) -> (r: Option<u64>)
    ensures
        r == modifier_of(cs@),
{
    let prefix = chars_of("0x");
    proof {
        reveal_strlit("0x");
    }
    if starts_with(cs, prefix.as_slice()) {
        let hex = slice_subrange(cs, 2, cs.len());
        assert(hex@ =~= cs@.skip(2));
        match parse_unsigned(hex, 16, u64::MAX) {
            Some(n) => {
                return Some(n);
            },
            None => {},
        }
    }
    parse_unsigned(cs, 10, u64::MAX)
}

/// The modifier of a format, if it is one of the wanted fourcc.
pub fn parse_drm_format(text: &str, wanted: &str) -> (r: Option<u64>)
    ensures
        r == drm_format_modifier(text@, wanted@),
{
    let cs = chars_of(text);
    let s = trim(cs.as_slice());
    let at: usize = find_char(s, ':');
    if at < s.len() {
        assert(s@.subrange(0, at as int) =~= s@.take(at as int));
        assert(s@.subrange(at + 1, s@.len() as int) =~= s@.skip(at + 1));
        if !is_text(trim(slice_subrange(s, 0, at)), wanted) {
            return None;
        }
        parse_modifier(trim(slice_subrange(s, at + 1, s.len())))
    } else {
        if !is_text(trim(s), wanted) {
            return None;
        }
        let linear = chars_of("0");
        parse_modifier(trim(linear.as_slice()))
    }
}

/// A list with one more modifier, unless it is there.
pub open spec fn with_modifier(list: Seq<u64>, modifier: u64) -> Seq<u64> {
    if list.contains(modifier) {
        list
    } else {
        list.push(modifier)
    }
}

/// The modifiers found so far, and those of a value.
pub open spec fn collected(value: FormatValue, wanted: Seq<char>, list: Seq<u64>) -> Seq<u64>
    decreases value, 0int,
{
    match value {
        FormatValue::Text(text) => match drm_format_modifier(text@, wanted) {
            Some(modifier) => with_modifier(list, modifier),
            None => list,
        },
        FormatValue::List(items) => collected_from(items, items@.len() as int, wanted, list),
        FormatValue::Other => list,
    }
}

/// The same for the first `n` values of a list.
pub open spec fn collected_from(
    items: Vec<FormatValue>,
    n: int,
    wanted: Seq<char>,
    list: Seq<u64>,
) -> Seq<u64>
    decreases items, n,
{
    if n <= 0 || n > items@.len() {
        list
    } else {
        collected(
            items@[n - 1],
            wanted,
            collected_from(items, n - 1, wanted, list),
        )
    }
}

fn lists(list: &Vec<u64>, modifier: u64) -> (r: bool)
    ensures
        r == list@.contains(modifier),
{
    let mut i: usize = 0;
    while i < list.len()
        invariant
            i <= list@.len(),
            forall|j: int| 0 <= j < i ==> list@[j] != modifier,
        decreases list@.len() - i,
    {
        if list[i] == modifier {
            return true;
        }
        i += 1;
    }
    false
}

/// Add the modifiers of a value for the wanted fourcc.
pub fn collect_modifiers(value: &FormatValue, wanted: &str, out: &mut Vec<u64>)
    ensures
        final(out)@ == collected(*value, wanted@, old(out)@),
    decreases value,
{
    match value {
        FormatValue::Text(text) => {
            match parse_drm_format(text.as_str(), wanted) {
                Some(modifier) => {
                    if !lists(out, modifier) {
                        out.push(modifier);
                    }
                },
                None => {},
            }
        },
        FormatValue::List(items) => {
            let mut i: usize = 0;
            while i < items.len()
                invariant
                    i <= items@.len(),
                    value matches FormatValue::List(l) && l == *items,
                    out@ == collected_from(*items, i as int, wanted@, old(out)@),
                decreases items@.len() - i,
            {
                assert(decreases_to!(items => items@[i as int]));
                collect_modifiers(&items[i], wanted, out);
                i += 1;
            }
        },
        FormatValue::Other => {},
    }
}

/// The modifiers that the templates of an element take for a fourcc.
pub open spec fn template_modifiers(
    templates: Seq<PadTemplate>,
    wanted: Seq<char>,
) -> Seq<u64>
    decreases templates.len(),
{
    if templates.len() == 0 {
        Seq::empty()
    } else {
        let earlier = template_modifiers(templates.drop_last(), wanted);
        let t = templates.last();
        if t.sink {
            collected_from(t.formats, t.formats@.len() as int, wanted, earlier)
        } else {
            earlier
        }
    }
}

/// DRM format modifiers the encoder chain can import for `fourcc`, from the pad
/// templates of `vapostproc` where that is registered. The linear one, zero, is
/// always among them.
pub fn supported_modifiers(fourcc: u32, templates: &Vec<PadTemplate>) -> (r: Vec<u64>)
    ensures
        r@ == with_modifier(
            template_modifiers(templates@, lossy_text(fourcc_bytes(fourcc))),
            0,
        ),
{
    let wanted = fourcc_name(fourcc);
    modifiers_for(wanted.as_str(), templates)
}

/// The same for a fourcc that is given as text.
pub fn modifiers_for(wanted: &str, templates: &Vec<PadTemplate>) -> (r: Vec<u64>)
    ensures
        r@ == with_modifier(template_modifiers(templates@, wanted@), 0),
{
    let mut modifiers: Vec<u64> = Vec::new();
    let mut i: usize = 0;
    assert(modifiers@ =~= template_modifiers(templates@.take(0), wanted@));
    while i < templates.len()
        invariant
            i <= templates@.len(),
            modifiers@ == template_modifiers(templates@.take(i as int), wanted@),
        decreases templates@.len() - i,
    {
        let template = &templates[i];
        let ghost earlier = modifiers@;
        assert(templates@.take(i + 1).drop_last() =~= templates@.take(i as int));
        assert(templates@.take(i + 1).last() == *template);
        if template.sink {
            let mut k: usize = 0;
            while k < template.formats.len()
                invariant
                    k <= template.formats@.len(),
                    modifiers@ == collected_from(template.formats, k as int, wanted@, earlier),
                decreases template.formats@.len() - k,
            {
                collect_modifiers(&template.formats[k], wanted, &mut modifiers);
                k += 1;
            }
        }
        i += 1;
    }
    assert(templates@.take(i as int) =~= templates@);
    if !lists(&modifiers, 0) {
        modifiers.push(0);
    }
    modifiers
}

/// Whether no number stands twice in a list.
pub open spec fn distinct(list: Seq<u64>) -> bool {
    forall|i: int, j: int| 0 <= i < j < list.len() ==> list[i] != list[j]
}

proof fn lemma_with_modifier(list: Seq<u64>, modifier: u64)
    ensures
        distinct(list) ==> distinct(with_modifier(list, modifier)),
        with_modifier(list, modifier).contains(modifier),
        forall|m: u64| list.contains(m) ==> with_modifier(list, modifier).contains(m),
{
    let new = with_modifier(list, modifier);
    if !list.contains(modifier) {
        assert(new[list.len() as int] == modifier);
        assert forall|m: u64| list.contains(m) implies new.contains(m) by {
            let i = choose|i: int| 0 <= i < list.len() && list[i] == m;
            assert(new[i] == m);
        }
        if distinct(list) {
            assert forall|i: int, j: int| 0 <= i < j < new.len() implies new[i] != new[j] by {
                if j == list.len() {
                    assert(list[i] == new[i]);
                    assert(list.contains(new[i]));
                }
            }
        }
    }
}

proof fn lemma_collected(value: FormatValue, wanted: Seq<char>, list: Seq<u64>)
    ensures
        distinct(list) ==> distinct(collected(value, wanted, list)),
    decreases value, 0int,
{
    match value {
        FormatValue::Text(text) => {
            match drm_format_modifier(text@, wanted) {
                Some(modifier) => {
                    lemma_with_modifier(list, modifier);
                },
                None => {},
            }
        },
        FormatValue::List(items) => {
            lemma_collected_from(items, items@.len() as int, wanted, list);
        },
        FormatValue::Other => {},
    }
}

proof fn lemma_collected_from(
    items: Vec<FormatValue>,
    n: int,
    wanted: Seq<char>,
    list: Seq<u64>,
)
    ensures
        distinct(list) ==> distinct(collected_from(items, n, wanted, list)),
    decreases items, n,
{
    if 0 < n <= items@.len() {
        lemma_collected_from(items, n - 1, wanted, list);
        lemma_collected(items@[n - 1], wanted, collected_from(items, n - 1, wanted, list));
    }
}

proof fn lemma_template_modifiers(templates: Seq<PadTemplate>, wanted: Seq<char>)
    ensures
        distinct(template_modifiers(templates, wanted)),
    decreases templates.len(),
{
    if templates.len() > 0 {
        lemma_template_modifiers(templates.drop_last(), wanted);
        let t = templates.last();
        lemma_collected_from(
            t.formats,
            t.formats@.len() as int,
            wanted,
            template_modifiers(templates.drop_last(), wanted),
        );
    }
}

/// The modifiers that are offered never repeat, and the linear one is there.
pub proof fn offered_modifiers_are_distinct(templates: Seq<PadTemplate>, wanted: Seq<char>)
    ensures
        distinct(with_modifier(template_modifiers(templates, wanted), 0)),
        with_modifier(template_modifiers(templates, wanted), 0).contains(0),
{
    lemma_template_modifiers(templates, wanted);
    lemma_with_modifier(template_modifiers(templates, wanted), 0);
}

// ------------------------------------------------------------------ config ---

#[derive(Debug)]
pub struct EncoderConfig {
    pub width: u32,
    pub height: u32,
    pub framerate: u32,
    pub bitrate_kbps: u32,
    /// DRM fourcc of the incoming frames (e.g. `XR24`).
    pub fourcc: u32,
    /// DRM format modifier of the incoming frames.
    pub modifier: u64,
    /// Distance between keyframes, in frames.
    pub keyframe_interval: u32,
    /// Encoder speed/quality balance, 1 (quality) .. 7 (speed). VA path only.
    pub target_usage: u32,
    /// `cbr`, `vbr`, or `cqp`.
    pub rate_control: String,
    /// CABAC entropy coding. VA path only.
    pub cabac: bool,
    /// Slices per frame. VA path only.
    pub num_slices: u32,
}

pub ghost struct EncoderConfigView {
    pub width: u32,
    pub height: u32,
    pub framerate: u32,
    pub bitrate_kbps: u32,
    pub fourcc: u32,
    pub modifier: u64,
    pub keyframe_interval: u32,
    pub target_usage: u32,
    pub rate_control: Seq<char>,
    pub cabac: bool,
    pub num_slices: u32,
}

impl View for EncoderConfig {
    type V = EncoderConfigView;

    open spec fn view(&self) -> EncoderConfigView {
        EncoderConfigView {
            width: self.width,
            height: self.height,
            framerate: self.framerate,
            bitrate_kbps: self.bitrate_kbps,
            fourcc: self.fourcc,
            modifier: self.modifier,
            keyframe_interval: self.keyframe_interval,
            target_usage: self.target_usage,
            rate_control: self.rate_control@,
            cabac: self.cabac,
            num_slices: self.num_slices,
        }
    }
}

/// `XR24`, 32 bits per pixel with 8 unused.
pub const XR24: u32 = 0x3432_5258;

/// How frames are encoded when nothing is asked for.
pub open spec fn default_encoder_config() -> EncoderConfigView {
    EncoderConfigView {
        width: 1920,
        height: 1200,
        framerate: 60,
        bitrate_kbps: 20_000,
        fourcc: XR24,
        modifier: 0x0200_0000_0000_0901,
        keyframe_interval: 600,
        target_usage: 3,
        rate_control: "vbr"@,
        cabac: true,
        num_slices: 1,
    }
}

impl Default for EncoderConfig {
    fn default() -> (r: Self)
        ensures
            r@ == default_encoder_config(),
    {
        EncoderConfig {
            width: 1920,
            height: 1200,
            framerate: 60,
            bitrate_kbps: 20_000,
            fourcc: XR24,
            modifier: 0x0200_0000_0000_0901,
            keyframe_interval: 600,
            target_usage: 3,
            rate_control: String::from_str("vbr"),
            cabac: true,
            num_slices: 1,
        }
    }
}

// ---------------------------------------------------------------- pipeline ---

/// A value in the caps of a filter.
#[derive(Debug)]
pub enum Field {
    Text(String),
    Int(i32),
    Fraction(i32, i32),
}

/// What frames or packets look like at one point of the pipeline.
#[derive(Debug)]
pub struct Caps {
    pub media: String,
    /// The kind of memory, where it is not the ordinary one.
    pub feature: Option<String>,
    pub fields: Vec<(String, Field)>,
}

/// A property of an element.
#[derive(Debug)]
pub enum Property {
    /// The value is given by its name.
    Named(String),
    Flag(bool),
    U32(u32),
    U64(u64),
    I32(i32),
    Caps(Caps),
}

/// One element of a pipeline.
#[derive(Debug)]
pub struct Element {
    pub factory: String,
    pub properties: Vec<(String, Property)>,
}

pub ghost enum FieldView {
    Text(Seq<char>),
    Int(i32),
    Fraction(i32, i32),
}

pub ghost struct CapsView {
    pub media: Seq<char>,
    pub feature: Option<Seq<char>>,
    pub fields: Seq<(Seq<char>, FieldView)>,
}

pub ghost enum PropertyView {
    Named(Seq<char>),
    Flag(bool),
    U32(u32),
    U64(u64),
    I32(i32),
    Caps(CapsView),
}

pub ghost struct ElementView {
    pub factory: Seq<char>,
    pub properties: Seq<(Seq<char>, PropertyView)>,
}

impl View for Field {
    type V = FieldView;

    open spec fn view(&self) -> FieldView {
        match self {
            Field::Text(s) => FieldView::Text(s@),
            Field::Int(n) => FieldView::Int(*n),
            Field::Fraction(n, d) => FieldView::Fraction(*n, *d),
        }
    }
}

impl View for Caps {
    type V = CapsView;

    open spec fn view(&self) -> CapsView {
        CapsView {
            media: self.media@,
            feature: crate::text::text_of(self.feature),
            fields: self.fields@.map_values(|f: (String, Field)| (f.0@, f.1@)),
        }
    }
}

impl View for Property {
    type V = PropertyView;

    open spec fn view(&self) -> PropertyView {
        match self {
            Property::Named(s) => PropertyView::Named(s@),
            Property::Flag(b) => PropertyView::Flag(*b),
            Property::U32(n) => PropertyView::U32(*n),
            Property::U64(n) => PropertyView::U64(*n),
            Property::I32(n) => PropertyView::I32(*n),
            Property::Caps(c) => PropertyView::Caps(c@),
        }
    }
}

impl View for Element {
    type V = ElementView;

    open spec fn view(&self) -> ElementView {
        ElementView {
            factory: self.factory@,
            properties: self.properties@.map_values(|p: (String, Property)| (p.0@, p.1@)),
        }
    }
}

impl Caps {
    fn of(media: &str) -> (r: Self)
        ensures
            r@ == (CapsView { media: media@, feature: None, fields: Seq::empty() }),
    {
        let r = Caps { media: String::from_str(media), feature: None, fields: Vec::new() };
        assert(r@.fields =~= Seq::empty());
        r
    }

    fn in_memory(self, feature: &str) -> (r: Self)
        ensures
            r@ == (CapsView { feature: Some(feature@), ..self@ }),
    {
        Caps { media: self.media, feature: Some(String::from_str(feature)), fields: self.fields }
    }

    fn field(self, name: &str, value: Field) -> (r: Self)
        ensures
            r@ == (CapsView { fields: self@.fields.push((name@, value@)), ..self@ }),
    {
        broadcast use lemma_map_push;

        let mut out = self;
        out.fields.push((String::from_str(name), value));
        out
    }

    fn text(self, name: &str, value: &str) -> (r: Self)
        ensures
            r@ == (CapsView {
                fields: self@.fields.push((name@, FieldView::Text(value@))),
                ..self@
            }),
    {
        self.field(name, Field::Text(String::from_str(value)))
    }
}

impl Element {
    fn make(factory: &str) -> (r: Self)
        ensures
            r@ == (ElementView { factory: factory@, properties: Seq::empty() }),
    {
        let r = Element { factory: String::from_str(factory), properties: Vec::new() };
        assert(r@.properties =~= Seq::empty());
        r
    }

    fn property(self, name: &str, value: Property) -> (r: Self)
        ensures
            r@ == (ElementView { properties: self@.properties.push((name@, value@)), ..self@ }),
    {
        broadcast use lemma_map_push;

        let mut out = self;
        out.properties.push((String::from_str(name), value));
        out
    }

    fn named(self, name: &str, value: &str) -> (r: Self)
        ensures
            r@ == (ElementView {
                properties: self@.properties.push((name@, PropertyView::Named(value@))),
                ..self@
            }),
    {
        self.property(name, Property::Named(String::from_str(value)))
    }

    fn flag(self, name: &str, value: bool) -> (r: Self)
        ensures
            r@ == (ElementView {
                properties: self@.properties.push((name@, PropertyView::Flag(value))),
                ..self@
            }),
    {
        self.property(name, Property::Flag(value))
    }

    fn number(self, name: &str, value: u32) -> (r: Self)
        ensures
            r@ == (ElementView {
                properties: self@.properties.push((name@, PropertyView::U32(value))),
                ..self@
            }),
    {
        self.property(name, Property::U32(value))
    }
}

/// A format and its modifier, as caps name them.
pub open spec fn drm_format(name: Seq<char>, modifier: u64) -> Seq<char> {
    name + ":0x"@ + hex_padded(modifier as nat, 16)
}

/// What the frames that go in look like.
pub open spec fn source_caps(c: EncoderConfigView, name: Seq<char>) -> CapsView {
    CapsView {
        media: "video/x-raw"@,
        feature: Some("memory:DMABuf"@),
        fields: seq![
            ("format"@, FieldView::Text("DMA_DRM"@)),
            ("drm-format"@, FieldView::Text(drm_format(name, c.modifier))),
            ("width"@, FieldView::Int(wrapped(c.width))),
            ("height"@, FieldView::Int(wrapped(c.height))),
            ("framerate"@, FieldView::Fraction(wrapped(c.framerate), 1)),
        ],
    }
}

/// What the frames look like that the encoder takes.
pub open spec fn nv12_caps(feature: Option<Seq<char>>) -> CapsView {
    CapsView {
        media: "video/x-raw"@,
        feature,
        fields: seq![("format"@, FieldView::Text("NV12"@))],
    }
}

/// What the packets look like that come out.
pub open spec fn stream_caps() -> CapsView {
    CapsView {
        media: "video/x-h264"@,
        feature: None,
        fields: seq![
            ("stream-format"@, FieldView::Text("byte-stream"@)),
            ("alignment"@, FieldView::Text("au"@)),
        ],
    }
}

pub open spec fn element(
    factory: Seq<char>,
    properties: Seq<(Seq<char>, PropertyView)>,
) -> ElementView {
    ElementView { factory, properties }
}

pub open spec fn filter(caps: CapsView) -> ElementView {
    element("capsfilter"@, seq![("caps"@, PropertyView::Caps(caps))])
}

/// Where the frames go in: live, one at a time, an old one giving way.
pub open spec fn source_element(c: EncoderConfigView, name: Seq<char>) -> ElementView {
    element(
        "appsrc"@,
        seq![
            ("caps"@, PropertyView::Caps(source_caps(c, name))),
            ("format"@, PropertyView::Named("time"@)),
            ("is-live"@, PropertyView::Flag(true)),
            ("max-buffers"@, PropertyView::U64(1)),
            ("leaky-type"@, PropertyView::Named("downstream"@)),
        ],
    )
}

/// From frames to packets, on each backend.
pub open spec fn encoding_elements(c: EncoderConfigView, backend: Backend) -> Seq<ElementView> {
    match backend {
        Backend::Vaapi => seq![
            element("vapostproc"@, Seq::empty()),
            filter(nv12_caps(Some("memory:VAMemory"@))),
            element(
                "vah264enc"@,
                seq![
                    ("rate-control"@, PropertyView::Named(c.rate_control)),
                    ("bitrate"@, PropertyView::U32(c.bitrate_kbps)),
                    ("cpb-size"@, PropertyView::U32(c.bitrate_kbps / 2)),
                    ("b-frames"@, PropertyView::U32(0)),
                    ("ref-frames"@, PropertyView::U32(1)),
                    ("key-int-max"@, PropertyView::U32(c.keyframe_interval)),
                    ("target-usage"@, PropertyView::U32(c.target_usage)),
                    ("cabac"@, PropertyView::Flag(c.cabac)),
                    ("num-slices"@, PropertyView::U32(c.num_slices)),
                    ("aud"@, PropertyView::Flag(true)),
                ],
            ),
        ],
        Backend::NvencGl => seq![
            element("glupload"@, Seq::empty()),
            element("glcolorconvert"@, Seq::empty()),
            element("gldownload"@, Seq::empty()),
            filter(nv12_caps(None)),
            element(
                "nvh264enc"@,
                seq![
                    ("bitrate"@, PropertyView::U32(c.bitrate_kbps)),
                    ("gop-size"@, PropertyView::I32(wrapped(c.keyframe_interval))),
                    ("zerolatency"@, PropertyView::Flag(true)),
                    ("aud"@, PropertyView::Flag(true)),
                ],
            ),
        ],
    }
}

/// From packets to where they are taken out, none of which is dropped.
pub open spec fn closing_elements() -> Seq<ElementView> {
    seq![
        element("h264parse"@, seq![("config-interval"@, PropertyView::I32((-1) as i32))]),
        filter(stream_caps()),
        element(
            "appsink"@,
            seq![
                ("sync"@, PropertyView::Flag(false)),
                ("max-buffers"@, PropertyView::U32(4)),
                ("drop"@, PropertyView::Flag(false)),
            ],
        ),
    ]
}

/// The whole pipeline, each element linked to the next.
pub open spec fn pipeline_for(
    c: EncoderConfigView,
    backend: Backend,
    name: Seq<char>,
) -> Seq<ElementView> {
    seq![source_element(c, name)] + encoding_elements(c, backend) + closing_elements()
}

pub open spec fn element_views(v: Seq<Element>) -> Seq<ElementView> {
    v.map_values(|e: Element| e@)
}

fn caps_filter(caps: Caps) -> (r: Element)
    ensures
        r@ == filter(caps@),
{
    let r = Element::make("capsfilter").property("caps", Property::Caps(caps));
    assert(r@.properties =~= filter(caps@).properties);
    r
}

fn make_source(config: &EncoderConfig, name: &str) -> (r: Element)
    ensures
        r@ == source_element(config@, name@),
{
    let mut format = joined(name, ":0x");
    push_hex(&mut format, config.modifier, 16);
    let caps = Caps::of("video/x-raw").in_memory("memory:DMABuf").text("format", "DMA_DRM").text(
        "drm-format",
        format.as_str(),
    ).field("width", Field::Int(to_signed(config.width))).field(
        "height",
        Field::Int(to_signed(config.height)),
    ).field("framerate", Field::Fraction(to_signed(config.framerate), 1));
    assert(caps@.fields =~= source_caps(config@, name@).fields);
    let r = Element::make("appsrc").property("caps", Property::Caps(caps)).named(
        "format",
        "time",
    ).flag("is-live", true).property("max-buffers", Property::U64(1)).named(
        "leaky-type",
        "downstream",
    );
    assert(r@.properties =~= source_element(config@, name@).properties);
    r
}

fn make_vaapi(config: &EncoderConfig) -> (r: Vec<Element>)
    ensures
        element_views(r@) == encoding_elements(config@, Backend::Vaapi),
{
    let want_nv12 = Caps::of("video/x-raw").in_memory("memory:VAMemory").text("format", "NV12");
    assert(want_nv12@.fields =~= nv12_caps(None).fields);
    let encoder = Element::make("vah264enc").named(
        "rate-control",
        config.rate_control.as_str(),
    ).number("bitrate", config.bitrate_kbps).number("cpb-size", config.bitrate_kbps / 2).number(
        "b-frames",
        0,
    ).number("ref-frames", 1).number("key-int-max", config.keyframe_interval).number(
        "target-usage",
        config.target_usage,
    ).flag("cabac", config.cabac).number("num-slices", config.num_slices).flag("aud", true);
    assert(encoder@.properties =~= encoding_elements(config@, Backend::Vaapi)[2].properties);
    let mut out: Vec<Element> = Vec::new();
    out.push(Element::make("vapostproc"));
    out.push(caps_filter(want_nv12));
    out.push(encoder);
    assert(element_views(out@) =~= encoding_elements(config@, Backend::Vaapi));
    out
}

fn make_nvenc(config: &EncoderConfig) -> (r: Vec<Element>)
    ensures
        element_views(r@) == encoding_elements(config@, Backend::NvencGl),
{
    let want_nv12 = Caps::of("video/x-raw").text("format", "NV12");
    assert(want_nv12@.fields =~= nv12_caps(None).fields);
    let encoder = Element::make("nvh264enc").number("bitrate", config.bitrate_kbps).property(
        "gop-size",
        Property::I32(to_signed(config.keyframe_interval)),
    ).flag("zerolatency", true).flag("aud", true);
    assert(encoder@.properties =~= encoding_elements(config@, Backend::NvencGl)[4].properties);
    let mut out: Vec<Element> = Vec::new();
    out.push(Element::make("glupload"));
    out.push(Element::make("glcolorconvert"));
    out.push(Element::make("gldownload"));
    out.push(caps_filter(want_nv12));
    out.push(encoder);
    assert(element_views(out@) =~= encoding_elements(config@, Backend::NvencGl));
    out
}

fn push_closing(out: &mut Vec<Element>)
    ensures
        element_views(final(out)@) == element_views(old(out)@) + closing_elements(),
{
    let parser = Element::make("h264parse").property("config-interval", Property::I32(-1));
    assert(parser@.properties =~= closing_elements()[0].properties);
    let caps = Caps::of("video/x-h264").text("stream-format", "byte-stream").text(
        "alignment",
        "au",
    );
    assert(caps@.fields =~= stream_caps().fields);
    let sink = Element::make("appsink").flag("sync", false).number("max-buffers", 4).flag(
        "drop",
        false,
    );
    assert(sink@.properties =~= closing_elements()[2].properties);
    out.push(parser);
    out.push(caps_filter(caps));
    out.push(sink);
    assert(element_views(out@) =~= element_views(old(out)@) + closing_elements());
}

/// The pipeline for frames as configured, whose format goes by this name.
pub fn pipeline(config: &EncoderConfig, backend: Backend, name: &str) -> (r: Vec<Element>)
    ensures
        element_views(r@) == pipeline_for(config@, backend, name@),
{
    let mut elements: Vec<Element> = Vec::new();
    elements.push(make_source(config, name));
    let mut middle = match backend {
        Backend::Vaapi => make_vaapi(config),
        Backend::NvencGl => make_nvenc(config),
    };
    let ghost source = elements@;
    let ghost encoding = middle@;
    elements.append(&mut middle);
    push_closing(&mut elements);
    proof {
        assert(element_views(source) =~= seq![source_element(config@, name@)]);
        assert(element_views(source + encoding) =~= element_views(source) + element_views(
            encoding,
        ));
    }
    elements
}

/// The encoder: what its pipeline is made of, and what its frames are like.
#[derive(Debug)]
pub struct Encoder {
    pub backend: Backend,
    /// In the order in which they are linked.
    pub elements: Vec<Element>,
    pub frame_size: usize,
    pub width: u32,
    pub height: u32,
}

impl Encoder {
    /// An encoder for frames as configured, given whether `nvh264enc` is
    /// registered.
    pub fn new(config: &EncoderConfig, nvenc_registered: bool) -> (r: Self)
        requires
            config.width * config.height * 4 <= usize::MAX,
        ensures
            r.backend == (if nvenc_registered {
                Backend::NvencGl
            } else {
                Backend::Vaapi
            }),
            element_views(r.elements@) == pipeline_for(
                config@,
                r.backend,
                lossy_text(fourcc_bytes(config.fourcc)),
            ),
            annex_b_comes_out(element_views(r.elements@)),
            frames_go_in(
                element_views(r.elements@),
                config@,
                lossy_text(fourcc_bytes(config.fourcc)),
            ),
            encodes_as_configured(element_views(r.elements@), config@, r.backend),
            r.frame_size == config.width * config.height * 4,
            r.width == config.width,
            r.height == config.height,
    {
        let backend = select_backend(nvenc_registered);
        let name = fourcc_name(config.fourcc);
        let elements = pipeline(config, backend, name.as_str());
        proof {
            packets_are_annex_b(config@, backend, name@);
            frames_go_in_as_they_are(config@, backend, name@);
            settings_reach_the_encoder(config@, backend, name@);
            assert(0 <= config.width * config.height <= config.width * config.height * 4)
                by (nonlinear_arith)
                requires
                    config.width >= 0,
                    config.height >= 0,
            ;
        }
        let frame_size: usize = (config.width as usize) * (config.height as usize) * 4;
        Encoder {
            backend,
            elements,
            frame_size,
            width: config.width,
            height: config.height,
        }
    }

    /// Where a submitted frame starts in its buffer and how far apart its lines
    /// are, as its description takes them.
    pub fn push_frame(offset: u32, stride: u32) -> (r: (usize, i32))
        ensures
            r.0 == offset,
            r.1 == wrapped(stride),
    {
        (offset as usize, to_signed(stride))
    }

    /// An access unit that came out. One without a time is taken to be at zero,
    /// and one that does not build on another is a keyframe.
    pub fn pull_packet(data: Vec<u8>, pts_ns: Option<u64>, delta_unit: bool) -> (r: EncodedPacket)
        ensures
            r.data == data,
            r.pts_ns == match pts_ns {
                Some(t) => t,
                None => 0,
            },
            r.keyframe == !delta_unit,
    {
        EncodedPacket {
            data,
            pts_ns: match pts_ns {
                Some(t) => t,
                None => 0,
            },
            keyframe: !delta_unit,
        }
    }
}

/// One encoded access unit.
#[derive(Debug)]
pub struct EncodedPacket {
    pub data: Vec<u8>,
    pub pts_ns: u64,
    pub keyframe: bool,
}

/// A message from the running pipeline.
#[derive(Debug)]
pub enum BusMessage {
    /// Where it happened, what, and the details.
    Error(Option<String>, String, Option<String>),
    Other,
}

pub open spec fn or_empty(text: Option<String>) -> Seq<char> {
    match text {
        Some(s) => s@,
        None => Seq::empty(),
    }
}

/// What is said of an error in the pipeline.
pub open spec fn error_text(
    source: Option<String>,
    error: String,
    debug: Option<String>,
) -> Seq<char> {
    "pipeline error from "@ + or_empty(source) + ": "@ + error@ + " ("@ + or_empty(debug) + ")"@
}

/// The first error among the messages.
pub open spec fn first_error(messages: Seq<BusMessage>) -> Option<Seq<char>>
    decreases messages.len(),
{
    if messages.len() == 0 {
        None
    } else {
        match messages[0] {
            BusMessage::Error(source, error, debug) => Some(error_text(source, error, debug)),
            BusMessage::Other => first_error(messages.skip(1)),
        }
    }
}

fn push_optional(out: &mut String, text: &Option<String>)
    ensures
        final(out)@ == old(out)@ + or_empty(*text),
{
    match text {
        Some(s) => {
            out.append(s.as_str());
        },
        None => {},
    }
    assert(out@ =~= old(out)@ + or_empty(*text));
}

/// Surface any pipeline error rather than letting it stall silently.
pub fn check_bus(messages: &Vec<BusMessage>) -> (r: Option<String>)
    ensures
        crate::text::text_of(r) == first_error(messages@),
{
    let mut i: usize = 0;
    assert(messages@.skip(0) =~= messages@);
    while i < messages.len()
        invariant
            i <= messages@.len(),
            first_error(messages@) == first_error(messages@.skip(i as int)),
        decreases messages@.len() - i,
    {
        assert(messages@.skip(i as int).skip(1) =~= messages@.skip(i + 1));
        match &messages[i] {
            BusMessage::Error(source, error, debug) => {
                let mut out = String::from_str("pipeline error from ");
                push_optional(&mut out, source);
                out.append(": ");
                out.append(error.as_str());
                out.append(" (");
                push_optional(&mut out, debug);
                out.append(")");
                return Some(out);
            },
            BusMessage::Other => {},
        }
        i += 1;
    }
    None
}

// -------------------------------------------------------------------- laws ---

/// A format that is written down reads back as its modifier.
pub proof fn drm_format_round_trip(name: Seq<char>, modifier: u64)
    requires
        name.len() > 0,
        !is_space(name[0]),
        !is_space(name.last()),
        !name.contains(':'),
    ensures
        drm_format_modifier(drm_format(name, modifier), name) == Some(modifier),
{
    reveal_strlit(":0x");
    reveal_strlit("0x");
    let hex = hex_padded(modifier as nat, 16);
    let s = drm_format(name, modifier);
    hex_round_trip(modifier as nat, 16, u64::MAX as nat);
    let body = if hex.len() > 0 && hex[0] == '+' {
        hex.skip(1)
    } else {
        hex
    };
    assert(crate::number::digit_value(body[body.len() - 1], 16) is Some);
    assert(hex.last() == body[body.len() - 1]);
    assert(!is_space(hex.last()));
    assert(s.last() == hex.last() && s[0] == name[0]);
    lemma_nothing_to_trim(s);
    lemma_nothing_to_trim(name);
    assert forall|i: int| 0 <= i < name.len() implies s[i] != ':' by {
        assert(s[i] == name[i]);
    }
    lemma_index_of_unique(s, ':', name.len() as int);
    assert(s.take(name.len() as int) =~= name);
    let m = s.skip((name.len() + 1) as int);
    assert(m =~= "0x"@ + hex);
    assert(m.last() == hex.last());
    lemma_nothing_to_trim(m);
    assert(m.take(2) =~= "0x"@);
    assert(m.skip(2) =~= hex);
}

/// No packet is held back or dropped at the end, and no picture waits for a
/// later one: the pipeline ends in the same three elements on each backend.
pub proof fn backends_end_alike(c: EncoderConfigView, name: Seq<char>)
    ensures
        pipeline_for(c, Backend::Vaapi, name).len() == 7,
        pipeline_for(c, Backend::NvencGl, name).len() == 9,
        pipeline_for(c, Backend::Vaapi, name).skip(4) == closing_elements(),
        pipeline_for(c, Backend::NvencGl, name).skip(6) == closing_elements(),
        pipeline_for(c, Backend::Vaapi, name)[0] == pipeline_for(c, Backend::NvencGl, name)[0],
{
    assert(pipeline_for(c, Backend::Vaapi, name).skip(4) =~= closing_elements());
    assert(pipeline_for(c, Backend::NvencGl, name).skip(6) =~= closing_elements());
}

// ----------------------------------------------------- what goes in and out ---

/// The value of a property, where it is set.
pub open spec fn property_of(
    properties: Seq<(Seq<char>, PropertyView)>,
    name: Seq<char>,
) -> Option<PropertyView>
    decreases properties.len(),
{
    if properties.len() == 0 {
        None
    } else if properties.last().0 == name {
        Some(properties.last().1)
    } else {
        property_of(properties.drop_last(), name)
    }
}

/// The value of a field of caps, where it has it.
pub open spec fn field_of(fields: Seq<(Seq<char>, FieldView)>, name: Seq<char>) -> Option<FieldView>
    decreases fields.len(),
{
    if fields.len() == 0 {
        None
    } else if fields.last().0 == name {
        Some(fields.last().1)
    } else {
        field_of(fields.drop_last(), name)
    }
}

/// The caps that an element sets.
pub open spec fn caps_of(e: ElementView) -> Option<CapsView> {
    match property_of(e.properties, "caps"@) {
        Some(PropertyView::Caps(caps)) => Some(caps),
        _ => None,
    }
}

/// What comes out of a pipeline is a stream of whole H.264 access units in
/// Annex-B form: the last element but one in front of the sink lets nothing else
/// through. The parser before it repeats the parameter sets with every keyframe,
/// and the sink waits for no clock and drops nothing.
pub open spec fn annex_b_comes_out(pipeline: Seq<ElementView>) -> bool {
    let n = pipeline.len();
    &&& n >= 3
    &&& pipeline[n - 1].factory == "appsink"@
    &&& property_of(pipeline[n - 1].properties, "sync"@) == Some(PropertyView::Flag(false))
    &&& property_of(pipeline[n - 1].properties, "drop"@) == Some(PropertyView::Flag(false))
    &&& pipeline[n - 2].factory == "capsfilter"@
    &&& caps_of(pipeline[n - 2]) matches Some(caps) && caps.media == "video/x-h264"@ && caps.feature
        is None && field_of(caps.fields, "stream-format"@) == Some(
        FieldView::Text("byte-stream"@),
    ) && field_of(caps.fields, "alignment"@) == Some(FieldView::Text("au"@)) && caps.fields.len()
        == 2
    &&& pipeline[n - 3].factory == "h264parse"@
    &&& property_of(pipeline[n - 3].properties, "config-interval"@) == Some(
        PropertyView::I32((-1) as i32),
    )
}

/// What goes into a pipeline is DMA-BUF frames of the configured size, rate,
/// format and modifier, live, by their time, and one at a time.
pub open spec fn frames_go_in(
    pipeline: Seq<ElementView>,
    c: EncoderConfigView,
    name: Seq<char>,
) -> bool {
    let source = pipeline[0];
    &&& pipeline.len() >= 1
    &&& source.factory == "appsrc"@
    &&& caps_of(source) matches Some(caps) && caps.media == "video/x-raw"@ && caps.feature == Some(
        "memory:DMABuf"@,
    ) && field_of(caps.fields, "format"@) == Some(FieldView::Text("DMA_DRM"@)) && (c.width
        <= i32::MAX ==> field_of(caps.fields, "width"@) == Some(FieldView::Int(c.width as i32)))
        && (c.height <= i32::MAX ==> field_of(caps.fields, "height"@) == Some(
        FieldView::Int(c.height as i32),
    )) && (c.framerate <= i32::MAX ==> field_of(caps.fields, "framerate"@) == Some(
        FieldView::Fraction(c.framerate as i32, 1),
    )) && (field_of(caps.fields, "drm-format"@) matches Some(FieldView::Text(text)) && text
        == name + ":0x"@ + hex_padded(c.modifier as nat, 16))
    &&& property_of(source.properties, "format"@) == Some(PropertyView::Named("time"@))
    &&& property_of(source.properties, "is-live"@) == Some(PropertyView::Flag(true))
    &&& property_of(source.properties, "max-buffers"@) == Some(PropertyView::U64(1))
    &&& property_of(source.properties, "leaky-type"@) == Some(PropertyView::Named("downstream"@))
}

/// The encoder of a pipeline is the hardware's, it is fed NV12 straight from the
/// filter before it, and it is set up as configured: for the bitrate, for the
/// distance between keyframes, and for no picture that waits for a later one.
pub open spec fn encodes_as_configured(
    pipeline: Seq<ElementView>,
    c: EncoderConfigView,
    backend: Backend,
) -> bool {
    let n = pipeline.len();
    let encoder = pipeline[n - 4];
    let p = encoder.properties;
    &&& n >= 5
    &&& pipeline[n - 5].factory == "capsfilter"@
    &&& caps_of(pipeline[n - 5]) matches Some(caps) && caps.media == "video/x-raw"@ && field_of(
        caps.fields,
        "format"@,
    ) == Some(FieldView::Text("NV12"@)) && caps.feature == match backend {
        Backend::Vaapi => Some("memory:VAMemory"@),
        Backend::NvencGl => None,
    }
    &&& property_of(p, "bitrate"@) == Some(PropertyView::U32(c.bitrate_kbps))
    &&& property_of(p, "aud"@) == Some(PropertyView::Flag(true))
    &&& backend == Backend::Vaapi ==> {
        &&& n == 7 && pipeline[1].factory == "vapostproc"@
        &&& encoder.factory == "vah264enc"@
        &&& property_of(p, "rate-control"@) == Some(PropertyView::Named(c.rate_control))
        &&& property_of(p, "cpb-size"@) matches Some(PropertyView::U32(size)) && 2 * size
            <= c.bitrate_kbps < 2 * (size + 1)
        &&& property_of(p, "b-frames"@) == Some(PropertyView::U32(0))
        &&& property_of(p, "ref-frames"@) == Some(PropertyView::U32(1))
        &&& property_of(p, "key-int-max"@) == Some(PropertyView::U32(c.keyframe_interval))
        &&& property_of(p, "target-usage"@) == Some(PropertyView::U32(c.target_usage))
        &&& property_of(p, "cabac"@) == Some(PropertyView::Flag(c.cabac))
        &&& property_of(p, "num-slices"@) == Some(PropertyView::U32(c.num_slices))
    }
    &&& backend == Backend::NvencGl ==> {
        &&& n == 9
        &&& pipeline[1].factory == "glupload"@ && pipeline[2].factory == "glcolorconvert"@
            && pipeline[3].factory == "gldownload"@
        &&& encoder.factory == "nvh264enc"@
        &&& property_of(p, "zerolatency"@) == Some(PropertyView::Flag(true))
        &&& c.keyframe_interval <= i32::MAX ==> property_of(p, "gop-size"@) == Some(
            PropertyView::I32(c.keyframe_interval as i32),
        )
    }
}

/// On each backend what comes out is Annex-B.
pub proof fn packets_are_annex_b(c: EncoderConfigView, backend: Backend, name: Seq<char>)
    ensures
        annex_b_comes_out(pipeline_for(c, backend, name)),
{
    reveal_with_fuel(property_of, 6);
    reveal_with_fuel(field_of, 6);
    reveal_strlit("sync");
    reveal_strlit("drop");
    reveal_strlit("max-buffers");
    reveal_strlit("stream-format");
    reveal_strlit("alignment");
    let p = pipeline_for(c, backend, name);
    let n = p.len();
    assert(p[n - 1] == closing_elements()[2]);
    assert(p[n - 2] == closing_elements()[1]);
    assert(p[n - 3] == closing_elements()[0]);
    assert("sync"@.len() == 4 && "drop"@.len() == 4 && "sync"@[0] != "drop"@[0]);
    assert("stream-format"@.len() != "alignment"@.len());
    assert("max-buffers"@.len() == 11);
}

proof fn lemma_property(properties: Seq<(Seq<char>, PropertyView)>, k: int)
    requires
        0 <= k < properties.len(),
        forall|j: int|
            k < j < properties.len() ==> (#[trigger] properties[j]).0 != properties[k].0,
    ensures
        property_of(properties, properties[k].0) == Some(properties[k].1),
    decreases properties.len(),
{
    if k < properties.len() - 1 {
        let head = properties.drop_last();
        assert(properties.last() == properties[properties.len() - 1]);
        assert(head[k] == properties[k]);
        assert forall|j: int| k < j < head.len() implies (#[trigger] head[j]).0 != head[k].0 by {
            assert(head[j] == properties[j]);
        }
        lemma_property(head, k);
    }
}

proof fn lemma_field(fields: Seq<(Seq<char>, FieldView)>, k: int)
    requires
        0 <= k < fields.len(),
        forall|j: int| k < j < fields.len() ==> (#[trigger] fields[j]).0 != fields[k].0,
    ensures
        field_of(fields, fields[k].0) == Some(fields[k].1),
    decreases fields.len(),
{
    if k < fields.len() - 1 {
        let head = fields.drop_last();
        assert(fields.last() == fields[fields.len() - 1]);
        assert(head[k] == fields[k]);
        assert forall|j: int| k < j < head.len() implies (#[trigger] head[j]).0 != head[k].0 by {
            assert(head[j] == fields[j]);
        }
        lemma_field(head, k);
    }
}

/// On each backend what goes in is the frames as they are captured.
pub proof fn frames_go_in_as_they_are(c: EncoderConfigView, backend: Backend, name: Seq<char>)
    ensures
        frames_go_in(pipeline_for(c, backend, name), c, name),
{
    reveal_strlit("caps");
    reveal_strlit("format");
    reveal_strlit("is-live");
    reveal_strlit("max-buffers");
    reveal_strlit("leaky-type");
    reveal_strlit("drm-format");
    reveal_strlit("width");
    reveal_strlit("height");
    reveal_strlit("framerate");
    assert("format"@[0] == 'f' && "height"@[0] == 'h');
    let source = source_element(c, name);
    assert(pipeline_for(c, backend, name)[0] == source);
    let p = source.properties;
    assert(p[0].0 == "caps"@ && p[1].0 == "format"@ && p[2].0 == "is-live"@ && p[3].0
        == "max-buffers"@ && p[4].0 == "leaky-type"@);
    lemma_property(p, 0);
    lemma_property(p, 1);
    lemma_property(p, 2);
    lemma_property(p, 3);
    lemma_property(p, 4);
    let f = source_caps(c, name).fields;
    assert(f[0].0 == "format"@ && f[1].0 == "drm-format"@ && f[2].0 == "width"@ && f[3].0
        == "height"@ && f[4].0 == "framerate"@);
    lemma_field(f, 0);
    lemma_field(f, 1);
    lemma_field(f, 2);
    lemma_field(f, 3);
    lemma_field(f, 4);
}

/// On each backend the settings reach the encoder.
pub proof fn settings_reach_the_encoder(c: EncoderConfigView, backend: Backend, name: Seq<char>)
    ensures
        encodes_as_configured(pipeline_for(c, backend, name), c, backend),
{
    reveal_strlit("rate-control");
    reveal_strlit("bitrate");
    reveal_strlit("cpb-size");
    reveal_strlit("b-frames");
    reveal_strlit("ref-frames");
    reveal_strlit("key-int-max");
    reveal_strlit("target-usage");
    reveal_strlit("cabac");
    reveal_strlit("num-slices");
    reveal_strlit("aud");
    reveal_strlit("gop-size");
    reveal_strlit("zerolatency");
    assert("rate-control"@[0] == 'r' && "target-usage"@[0] == 't');
    assert("cpb-size"@[0] == 'c' && "b-frames"@[0] == 'b');
    assert("ref-frames"@[0] == 'r' && "num-slices"@[0] == 'n');
    let pipeline = pipeline_for(c, backend, name);
    let n = pipeline.len();
    let encoding = encoding_elements(c, backend);
    assert(pipeline[n - 4] == encoding.last());
    assert(pipeline[n - 5] == encoding[encoding.len() - 2]);
    assert(pipeline[1] == encoding[0]);
    assert(pipeline[2] == encoding[1]);
    assert(pipeline[3] == encoding[2]);
    let caps = nv12_caps(
        match backend {
            Backend::Vaapi => Some("memory:VAMemory"@),
            Backend::NvencGl => None,
        },
    );
    assert(pipeline[n - 5] == filter(caps));
    lemma_property(filter(caps).properties, 0);
    lemma_field(caps.fields, 0);
    let p = encoding.last().properties;
    match backend {
        Backend::Vaapi => {
            assert(p.len() == 10 && p[0].0 == "rate-control"@ && p[1].0 == "bitrate"@ && p[2].0
                == "cpb-size"@ && p[3].0 == "b-frames"@ && p[4].0 == "ref-frames"@ && p[5].0
                == "key-int-max"@ && p[6].0 == "target-usage"@ && p[7].0 == "cabac"@ && p[8].0
                == "num-slices"@ && p[9].0 == "aud"@);
            lemma_property(p, 0);
            lemma_property(p, 1);
            lemma_property(p, 2);
            lemma_property(p, 3);
            lemma_property(p, 4);
            lemma_property(p, 5);
            lemma_property(p, 6);
            lemma_property(p, 7);
            lemma_property(p, 8);
            lemma_property(p, 9);
        },
        Backend::NvencGl => {
            assert(p.len() == 4 && p[0].0 == "bitrate"@ && p[1].0 == "gop-size"@ && p[2].0
                == "zerolatency"@ && p[3].0 == "aud"@);
            lemma_property(p, 0);
            lemma_property(p, 1);
            lemma_property(p, 2);
            lemma_property(p, 3);
        },
    }
}

/// Whether a value names a modifier for a format, itself or somewhere in a list.
pub open spec fn mentions(value: FormatValue, wanted: Seq<char>, modifier: u64) -> bool
    decreases value, 0int,
{
    match value {
        FormatValue::Text(text) => drm_format_modifier(text@, wanted) == Some(modifier),
        FormatValue::List(items) => one_mentions(items, items@.len() as int, wanted, modifier),
        FormatValue::Other => false,
    }
}

/// Whether one of the first `n` values of a list does.
pub open spec fn one_mentions(
    items: Vec<FormatValue>,
    n: int,
    wanted: Seq<char>,
    modifier: u64,
) -> bool
    decreases items, n,
{
    0 < n <= items@.len() && (mentions(items@[n - 1], wanted, modifier) || one_mentions(
        items,
        n - 1,
        wanted,
        modifier,
    ))
}

proof fn lemma_one_mentions(items: Vec<FormatValue>, n: int, wanted: Seq<char>, modifier: u64)
    requires
        0 <= n <= items@.len(),
    ensures
        one_mentions(items, n, wanted, modifier) <==> exists|i: int|
            0 <= i < n && mentions(#[trigger] items@[i], wanted, modifier),
    decreases n,
{
    if n > 0 {
        lemma_one_mentions(items, n - 1, wanted, modifier);
        if mentions(items@[n - 1], wanted, modifier) {
            assert(mentions(items@[n - 1], wanted, modifier));
        }
    }
}

/// Whether an input of an element takes a modifier for a format.
pub open spec fn takes(templates: Seq<PadTemplate>, wanted: Seq<char>, modifier: u64) -> bool {
    exists|i: int, k: int|
        0 <= i < templates.len() && (#[trigger] templates[i]).sink && 0 <= k
            < templates[i].formats@.len() && mentions(
            #[trigger] templates[i].formats@[k],
            wanted,
            modifier,
        )
}

proof fn lemma_collects(value: FormatValue, wanted: Seq<char>, list: Seq<u64>, modifier: u64)
    ensures
        collected(value, wanted, list).contains(modifier) <==> list.contains(modifier) || mentions(
            value,
            wanted,
            modifier,
        ),
    decreases value, 0int,
{
    match value {
        FormatValue::Text(text) => {
            match drm_format_modifier(text@, wanted) {
                Some(found) => {
                    lemma_with_modifier(list, found);
                    let new = with_modifier(list, found);
                    if new.contains(modifier) && !list.contains(modifier) {
                        let i = choose|i: int| 0 <= i < new.len() && new[i] == modifier;
                        if i < list.len() {
                            assert(list[i] == modifier);
                        }
                        assert(new[i] == found);
                    }
                    assert(collected(value, wanted, list) == new);
                    assert(mentions(value, wanted, modifier) == (found == modifier));
                    assert(list.contains(modifier) ==> new.contains(modifier));
                    assert(found == modifier ==> new.contains(modifier));
                },
                None => {
                    assert(collected(value, wanted, list) == list);
                    assert(!mentions(value, wanted, modifier));
                },
            }
        },
        FormatValue::List(items) => {
            lemma_collects_from(items, items@.len() as int, wanted, list, modifier);
            assert(collected(value, wanted, list) == collected_from(
                items,
                items@.len() as int,
                wanted,
                list,
            ));
        },
        FormatValue::Other => {},
    }
}

proof fn lemma_collects_from(
    items: Vec<FormatValue>,
    n: int,
    wanted: Seq<char>,
    list: Seq<u64>,
    modifier: u64,
)
    requires
        0 <= n <= items@.len(),
    ensures
        collected_from(items, n, wanted, list).contains(modifier) <==> list.contains(modifier)
            || one_mentions(items, n, wanted, modifier),
    decreases items, n,
{
    if n > 0 {
        lemma_collects_from(items, n - 1, wanted, list, modifier);
        lemma_collects(
            items@[n - 1],
            wanted,
            collected_from(items, n - 1, wanted, list),
            modifier,
        );
    }
}

proof fn lemma_takes(templates: Seq<PadTemplate>, wanted: Seq<char>, modifier: u64)
    ensures
        template_modifiers(templates, wanted).contains(modifier) <==> takes(
            templates,
            wanted,
            modifier,
        ),
    decreases templates.len(),
{
    if templates.len() > 0 {
        let head = templates.drop_last();
        let t = templates.last();
        lemma_takes(head, wanted, modifier);
        let earlier = template_modifiers(head, wanted);
        if t.sink {
            lemma_collects_from(t.formats, t.formats@.len() as int, wanted, earlier, modifier);
            lemma_one_mentions(t.formats, t.formats@.len() as int, wanted, modifier);
        }
        if takes(head, wanted, modifier) {
            let (i, k) = choose|i: int, k: int|
                0 <= i < head.len() && (#[trigger] head[i]).sink && 0 <= k < head[i].formats@.len()
                    && mentions(#[trigger] head[i].formats@[k], wanted, modifier);
            assert(templates[i] == head[i]);
            assert(mentions(templates[i].formats@[k], wanted, modifier));
        }
        if takes(templates, wanted, modifier) {
            let (i, k) = choose|i: int, k: int|
                0 <= i < templates.len() && (#[trigger] templates[i]).sink && 0 <= k
                    < templates[i].formats@.len() && mentions(
                    #[trigger] templates[i].formats@[k],
                    wanted,
                    modifier,
                );
            if i < head.len() {
                assert(head[i] == templates[i]);
                assert(mentions(head[i].formats@[k], wanted, modifier));
            } else {
                assert(mentions(t.formats@[k], wanted, modifier));
            }
        }
        if t.sink && exists|k: int|
            0 <= k < t.formats@.len() && mentions(#[trigger] t.formats@[k], wanted, modifier) {
            let k = choose|k: int|
                0 <= k < t.formats@.len() && mentions(#[trigger] t.formats@[k], wanted, modifier);
            let i = templates.len() - 1;
            assert(templates[i] == t);
            assert(mentions(templates[i].formats@[k], wanted, modifier));
        }
    } else {
        assert(!takes(templates, wanted, modifier));
    }
}

/// A modifier is offered for a format exactly where an input of the element takes
/// it, or where it is the linear one.
pub proof fn offered_modifiers_are_those_taken(
    templates: Seq<PadTemplate>,
    wanted: Seq<char>,
    modifier: u64,
)
    ensures
        with_modifier(template_modifiers(templates, wanted), 0).contains(modifier) <==> modifier
            == 0 || takes(templates, wanted, modifier),
{
    lemma_takes(templates, wanted, modifier);
    let list = template_modifiers(templates, wanted);
    lemma_with_modifier(list, 0);
    let new = with_modifier(list, 0);
    if new.contains(modifier) && !list.contains(modifier) {
        let i = new.index_of(modifier);
        assert(i == list.len());
    }
}

/// What one element likes better stays in front: a template that is looked at
/// later only adds to the end of the list.
pub proof fn earlier_templates_come_first(
    templates: Seq<PadTemplate>,
    more: PadTemplate,
    wanted: Seq<char>,
)
    ensures
        template_modifiers(templates, wanted).is_prefix_of(
            template_modifiers(templates.push(more), wanted),
        ),
{
    assert(templates.push(more).drop_last() =~= templates);
    lemma_prefix_from(
        more.formats,
        more.formats@.len() as int,
        wanted,
        template_modifiers(templates, wanted),
    );
}

proof fn lemma_prefix(value: FormatValue, wanted: Seq<char>, list: Seq<u64>)
    ensures
        list.is_prefix_of(collected(value, wanted, list)),
    decreases value, 0int,
{
    match value {
        FormatValue::List(items) => {
            lemma_prefix_from(items, items@.len() as int, wanted, list);
        },
        _ => {},
    }
}

proof fn lemma_prefix_from(items: Vec<FormatValue>, n: int, wanted: Seq<char>, list: Seq<u64>)
    ensures
        list.is_prefix_of(collected_from(items, n, wanted, list)),
    decreases items, n,
{
    if 0 < n <= items@.len() {
        lemma_prefix_from(items, n - 1, wanted, list);
        let before = collected_from(items, n - 1, wanted, list);
        lemma_prefix(items@[n - 1], wanted, before);
    }
}

/// A format that is written down is none of any other.
pub proof fn other_formats_are_passed_over(name: Seq<char>, other: Seq<char>, modifier: u64)
    requires
        name.len() > 0,
        !is_space(name[0]),
        !is_space(name.last()),
        !name.contains(':'),
        other != name,
    ensures
        drm_format_modifier(drm_format(name, modifier), other) is None,
        drm_format_modifier(name, other) is None,
        drm_format_modifier(name, name) == Some(0u64),
{
    reveal_strlit(":0x");
    let hex = hex_padded(modifier as nat, 16);
    let s = drm_format(name, modifier);
    hex_round_trip(modifier as nat, 16, u64::MAX as nat);
    let body = if hex.len() > 0 && hex[0] == '+' {
        hex.skip(1)
    } else {
        hex
    };
    assert(crate::number::digit_value(body[body.len() - 1], 16) is Some);
    assert(hex.last() == body[body.len() - 1]);
    lemma_nothing_to_trim(s);
    lemma_nothing_to_trim(name);
    assert forall|i: int| 0 <= i < name.len() implies s[i] != ':' by {
        assert(s[i] == name[i]);
    }
    lemma_index_of_unique(s, ':', name.len() as int);
    assert(s.take(name.len() as int) =~= name);
    crate::text::lemma_index_of(name, ':');
    assert(index_of(name, ':') >= name.len()) by {
        if index_of(name, ':') < name.len() {
            assert(name.contains(name[index_of(name, ':')]));
        }
    }
    reveal_strlit("0");
    reveal_strlit("0x");
    lemma_nothing_to_trim("0"@);
    crate::number::decimal_round_trip(0, u64::MAX as nat);
    reveal_with_fuel(crate::number::digits, 2);
    assert(crate::number::decimal(0) =~= "0"@);
}

/// A fourcc is the number that its characters make, the first counting least.
pub proof fn fourccs_are_read_from_the_low_end(code: u32)
    ensures
        fourcc_bytes(code).len() == 4,
        fourcc_bytes(code)[0] + 256 * fourcc_bytes(code)[1] + 65536 * fourcc_bytes(code)[2]
            + 16777216 * fourcc_bytes(code)[3] == code,
{
}

/// An error in the pipeline is told of, the first where there are several, with
/// where it happened, what, and the details.
pub proof fn pipeline_errors_are_told(messages: Seq<BusMessage>, i: int)
    requires
        0 <= i < messages.len(),
        messages[i] is Error,
        forall|j: int| 0 <= j < i ==> (#[trigger] messages[j]) is Other,
    ensures
        first_error(messages) == Some(
            "pipeline error from "@ + or_empty(messages[i]->Error_0) + ": "@ + messages[i]->Error_1@
                + " ("@ + or_empty(messages[i]->Error_2) + ")"@,
        ),
    decreases i,
{
    if i > 0 {
        let rest = messages.skip(1);
        assert(rest[i - 1] == messages[i]);
        assert forall|j: int| 0 <= j < i - 1 implies (#[trigger] rest[j]) is Other by {
            assert(rest[j] == messages[j + 1]);
        }
        assert(messages[0] is Other);
        pipeline_errors_are_told(rest, i - 1);
    }
}

/// Nothing but an error is told of.
pub proof fn other_messages_are_passed_over(messages: Seq<BusMessage>)
    requires
        forall|j: int| 0 <= j < messages.len() ==> (#[trigger] messages[j]) is Other,
    ensures
        first_error(messages) is None,
    decreases messages.len(),
{
    if messages.len() > 0 {
        let rest = messages.skip(1);
        assert forall|j: int| 0 <= j < rest.len() implies (#[trigger] rest[j]) is Other by {
            assert(rest[j] == messages[j + 1]);
        }
        assert(messages[0] is Other);
        other_messages_are_passed_over(rest);
    }
}

/// A modifier may also be written in decimal, with blanks around it.
pub proof fn modifiers_are_read_in_decimal(name: Seq<char>, modifier: u64)
    requires
        name.len() > 0,
        !is_space(name[0]),
        !is_space(name.last()),
        !name.contains(':'),
    ensures
        drm_format_modifier(
            name + seq![':', ' '] + crate::number::decimal(modifier as nat),
            name,
        ) == Some(modifier),
{
    let d = crate::number::decimal(modifier as nat);
    let s = name + seq![':', ' '] + d;
    crate::number::lemma_decimal_shape(modifier as nat);
    crate::number::decimal_round_trip(modifier as nat, u64::MAX as nat);
    assert forall|i: int| 0 <= i < d.len() implies '0' <= #[trigger] d[i] && d[i] <= '9' by {
        crate::number::decimals_are_digits(modifier as nat, i);
    }
    assert(d.last() == d[d.len() - 1]);
    assert(!is_space(d[0]) && !is_space(d[d.len() - 1]));
    assert(s[0] == name[0] && s.last() == d.last());
    lemma_nothing_to_trim(s);
    lemma_nothing_to_trim(name);
    assert forall|i: int| 0 <= i < name.len() implies s[i] != ':' by {
        assert(s[i] == name[i]);
        assert(name.contains(name[i]));
    }
    lemma_index_of_unique(s, ':', name.len() as int);
    assert(s.take(name.len() as int) =~= name);
    let m = s.skip(name.len() as int + 1);
    assert(m =~= seq![' '] + d + Seq::<char>::empty());
    assert(crate::text::is_blank(seq![' ']));
    crate::text::blanks_are_trimmed(seq![' '], d, Seq::empty());
    reveal_strlit("0x");
    if begins_with(d, "0x"@) {
        assert(d.take(2)[1] == 'x');
        assert(d[1] == 'x');
    }
}

} // verus!
