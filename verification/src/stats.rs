//! Summaries of measured times, and pictures of frames.

use vstd::prelude::*;

verus! {

// ------------------------------------------------------------------- order ---

/// Whether numbers stand in ascending order.
pub open spec fn ascending(s: Seq<u64>) -> bool {
    forall|i: int, j: int| 0 <= i <= j < s.len() ==> s[i] <= s[j]
}

/// `<[u64]>::sort_unstable`: the same numbers, in ascending order.
#[verifier::external_body]
fn sort(v: &mut Vec<u64>)
    ensures
        ascending(final(v)@),
        final(v)@.to_multiset() == old(v)@.to_multiset(),
{
    v.sort_unstable();
}

/// Whether `s` holds the numbers of `all`, in ascending order.
pub open spec fn sorted_from(s: Seq<u64>, all: Seq<u64>) -> bool {
    ascending(s) && s.to_multiset() == all.to_multiset()
}

/// There is one way to put numbers in order.
pub proof fn order_is_unique(a: Seq<u64>, b: Seq<u64>, all: Seq<u64>)
    requires
        sorted_from(a, all),
        sorted_from(b, all),
    ensures
        a == b,
{
    let leq = |x: u64, y: u64| x <= y;
    assert(vstd::relations::sorted_by(a, leq));
    assert(vstd::relations::sorted_by(b, leq));
    assert(vstd::relations::total_ordering(leq));
    vstd::seq_lib::lemma_sorted_unique(a, b, leq);
}

/// The smallest, the middle, the 95th of a hundred, and the largest of some
/// numbers.
#[derive(Debug, Clone, Copy, PartialEq, Eq, Structural)]
pub struct Summary {
    pub min: u64,
    pub median: u64,
    pub p95: u64,
    pub max: u64,
}

/// The summary of numbers that stand in order.
pub open spec fn summary_of(sorted: Seq<u64>) -> Summary {
    Summary {
        min: sorted[0],
        median: sorted[sorted.len() as int / 2],
        p95: sorted[sorted.len() as int * 95 / 100],
        max: sorted[sorted.len() - 1],
    }
}

/// Sum up measured times, where there are any.
pub fn summarise(times: &Vec<u64>) -> (r: Option<Summary>)
    requires
        times@.len() * 95 <= usize::MAX,
    ensures
        r is None <==> times@.len() == 0,
        r matches Some(s) ==> exists|sorted: Seq<u64>| #[trigger]
            sorted_from(sorted, times@) && sorted.len() == times@.len() && s == summary_of(sorted),
{
    let n: usize = times.len();
    if n == 0 {
        return None;
    }
    let mut sorted: Vec<u64> = Vec::new();
    sorted.extend_from_slice(times.as_slice());
    assert(sorted@ =~= times@);
    sort(&mut sorted);
    assert(sorted_from(sorted@, times@));
    proof {
        broadcast use vstd::seq_lib::group_to_multiset_ensures;

        assert(sorted@.len() == sorted@.to_multiset().len());
        assert(times@.len() == times@.to_multiset().len());
        assert(n * 95 / 100 < n) by (nonlinear_arith)
            requires
                n > 0,
        ;
    }
    Some(
        Summary {
            min: sorted[0],
            median: sorted[n / 2],
            p95: sorted[n * 95 / 100],
            max: sorted[n - 1],
        },
    )
}

/// The parts of a summary stand in order.
pub proof fn summary_is_ordered(sorted: Seq<u64>)
    requires
        ascending(sorted),
        sorted.len() > 0,
    ensures
        summary_of(sorted).min <= summary_of(sorted).median <= summary_of(sorted).p95
            <= summary_of(sorted).max,
{
    let n = sorted.len() as int;
    assert(0 <= n / 2 <= n * 95 / 100 <= n - 1) by (nonlinear_arith)
        requires
            n > 0,
    ;
}

// ------------------------------------------------------------------ pacing ---

/// The time from each frame to the next, and none where the clock went back.
pub open spec fn gaps(times: Seq<u64>) -> Seq<u64> {
    Seq::new(
        if times.len() == 0 {
            0
        } else {
            (times.len() - 1) as nat
        },
        |i: int|
            if times[i + 1] >= times[i] {
                (times[i + 1] - times[i]) as u64
            } else {
                0
            },
    )
}

/// The times between frames.
pub fn pacing(times: &Vec<u64>) -> (r: Vec<u64>)
    ensures
        r@ == gaps(times@),
{
    let mut out: Vec<u64> = Vec::new();
    let mut i: usize = 1;
    while i < times.len()
        invariant
            1 <= i,
            times@.len() > 0 ==> i <= times@.len(),
            out@ =~= gaps(times@.take(i as int)) || times@.len() == 0,
            times@.len() == 0 ==> out@.len() == 0,
        decreases times@.len() - i,
    {
        let gap: u64 = times[i].saturating_sub(times[i - 1]);
        out.push(gap);
        i += 1;
        assert(out@ =~= gaps(times@.take(i as int)));
    }
    proof {
        if times@.len() > 0 {
            assert(times@.take(i as int) =~= times@);
        } else {
            assert(out@ =~= gaps(times@));
        }
    }
    out
}

// ---------------------------------------------------------------- pictures ---

/// One line of a picture: of each pixel red, green and blue, from four bytes
/// that hold blue, green and red first.
pub open spec fn rgb_byte(pixels: Seq<u8>, stride: int, width: int, i: int) -> u8 {
    let pixel = i / 3;
    let at = (pixel / width) * stride + (pixel % width) * 4;
    pixels[at + 2 - i % 3]
}

/// A picture as red, green and blue.
pub open spec fn rgb_of(pixels: Seq<u8>, stride: int, width: int, height: int) -> Seq<u8> {
    Seq::new((width * height * 3) as nat, |i: int| rgb_byte(pixels, stride, width, i))
}

/// Whether a picture of the given size lies within its bytes, and 32 bits can
/// count them.
pub open spec fn holds_picture(len: int, stride: int, width: int, height: int) -> bool {
    &&& width * height * 3 <= u32::MAX
    &&& width > 0 && height > 0 ==> {
        &&& (height - 1) * stride <= u32::MAX
        &&& (width - 1) * 4 <= u32::MAX
        &&& (height - 1) * stride + (width - 1) * 4 + 2 < len
    }
}

/// A picture as red, green and blue.
pub fn to_rgb(pixels: &[u8], stride: u32, width: u32, height: u32) -> (r: Vec<u8>)
    requires
        holds_picture(pixels@.len() as int, stride as int, width as int, height as int),
    ensures
        r@ == rgb_of(pixels@, stride as int, width as int, height as int),
{
    let mut rgb: Vec<u8> = Vec::new();
    let mut y: u32 = 0;
    let total: usize = pixels.len();
    assert(rgb@ =~= rgb_of(pixels@, stride as int, width as int, 0));
    while y < height
        invariant
            y <= height,
            total == pixels@.len(),
            holds_picture(total as int, stride as int, width as int, height as int),
            rgb@ == rgb_of(pixels@, stride as int, width as int, y as int),
        decreases height - y,
    {
        let mut x: u32 = 0;
        assert(y * stride <= (height - 1) * stride) by (nonlinear_arith)
            requires
                y <= height - 1,
                stride >= 0,
        ;
        assert(width * y * 3 == rgb@.len()) by (nonlinear_arith)
            requires
                rgb@.len() == width * y * 3,
        ;
        while x < width
            invariant
                x <= width,
                y < height,
                total == pixels@.len(),
                holds_picture(total as int, stride as int, width as int, height as int),
                y * stride <= (height - 1) * stride,
                rgb@.len() == (width * y + x) * 3,
                forall|i: int|
                    0 <= i < rgb@.len() ==> rgb@[i] == rgb_byte(
                        pixels@,
                        stride as int,
                        width as int,
                        i,
                    ),
            decreases width - x,
        {
            let row: u32 = y * stride;
            let px: usize = row as usize + (x * 4) as usize;
            let ghost n = rgb@.len() as int;
            rgb.push(pixels[px + 2]);
            rgb.push(pixels[px + 1]);
            rgb.push(pixels[px]);
            proof {
                let pixel = width * y + x;
                assert(pixel / (width as int) == y && pixel % (width as int) == x)
                    by (nonlinear_arith)
                    requires
                        pixel == width * y + x,
                        0 <= x < width,
                        y >= 0,
                ;
                assert(n == pixel * 3);
                assert(n / 3 == pixel && (n + 1) / 3 == pixel && (n + 2) / 3 == pixel);
                assert((pixel / width as int) * stride == row);
                assert(rgb@[n] == rgb_byte(pixels@, stride as int, width as int, n));
                assert(rgb@[n + 1] == rgb_byte(pixels@, stride as int, width as int, n + 1));
                assert(rgb@[n + 2] == rgb_byte(pixels@, stride as int, width as int, n + 2));
            }
            x += 1;
        }
        y += 1;
        proof {
            assert(width * (y - 1) + width == width * y) by (nonlinear_arith);
            assert(rgb@ =~= rgb_of(pixels@, stride as int, width as int, y as int));
        }
    }
    rgb
}

/// The error of the PNG encoder.
#[verifier::external_type_specification]
#[verifier::external_body]
pub struct ExEncodingError(png::EncodingError);

/// What the PNG encoder makes of a picture, where it takes it.
pub uninterp spec fn png_file(rgb: Seq<u8>, width: u32, height: u32) -> Option<Seq<u8>>;

/// `png::Encoder` with eight bits each of red, green and blue: the header and
/// the image data, written to memory. The bytes must be those of the whole
/// picture: only then can the size that the encoder reckons with not overflow.
#[verifier::external_body]
fn encode_png(rgb: &[u8], width: u32, height: u32) -> (r: Result<Vec<u8>, png::EncodingError>)
    requires
        rgb@.len() == width * height * 3,
    ensures
        r is Err <==> png_file(rgb@, width, height) is None,
        r matches Ok(file) ==> png_file(rgb@, width, height) == Some(file@),
{
    let mut out = Vec::new();
    let mut encoder = png::Encoder::new(&mut out, width, height);
    encoder.set_color(png::ColorType::Rgb);
    encoder.set_depth(png::BitDepth::Eight);
    encoder.write_header()?.write_image_data(rgb)?;
    Ok(out)
}

/// The picture cannot be written as a PNG file.
#[derive(Debug, Clone, Copy, PartialEq, Eq, Structural)]
pub struct NotAPicture;

/// A captured frame as a PNG file.
pub fn write_png(pixels: &[u8], stride: u32, width: u32, height: u32) -> (r: Result<
    Vec<u8>,
    NotAPicture,
>)
    requires
        holds_picture(pixels@.len() as int, stride as int, width as int, height as int),
    ensures
        (match r {
            Ok(file) => Some(file@),
            Err(_) => None,
        }) == png_file(
            rgb_of(pixels@, stride as int, width as int, height as int),
            width,
            height,
        ),
{
    let rgb = to_rgb(pixels, stride, width, height);
    match encode_png(rgb.as_slice(), width, height) {
        Ok(file) => Ok(file),
        Err(_) => Err(NotAPicture),
    }
}

// -------------------------------------------------------------------- laws ---

/// A summary holds the least, the middle and the greatest of the numbers, and the one
/// that nineteen in twenty do not exceed.
pub proof fn summaries_are_of_the_numbers(sorted: Seq<u64>, i: int)
    requires
        ascending(sorted),
        0 <= i < sorted.len(),
    ensures
        ({
            let s = summary_of(sorted);
            let n = sorted.len() as int;
            &&& s.min <= sorted[i] <= s.max
            &&& sorted.contains(s.min) && sorted.contains(s.median) && sorted.contains(s.p95)
                && sorted.contains(s.max)
            &&& 2 * i <= n - 1 ==> sorted[i] <= s.median
            &&& 2 * i >= n ==> s.median <= sorted[i]
            &&& 100 * i <= 95 * n - 100 ==> sorted[i] <= s.p95
            &&& 100 * i >= 95 * n ==> s.p95 <= sorted[i]
        }),
{
    let n = sorted.len() as int;
    let p = n * 95 / 100;
    assert(0 <= p < n && 100 * p <= 95 * n < 100 * (p + 1)) by (nonlinear_arith)
        requires
            p == n * 95 / 100,
            n > 0,
    ;
    let m = n / 2;
    assert(sorted[0] == summary_of(sorted).min);
    assert(sorted[m] == summary_of(sorted).median);
    assert(sorted[p] == summary_of(sorted).p95);
    assert(sorted[n - 1] == summary_of(sorted).max);
}

/// Between every two frames there is one gap, and it is the time between them.
pub proof fn gaps_are_between_neighbours(times: Seq<u64>, i: int)
    requires
        0 <= i < times.len() - 1,
    ensures
        gaps(times).len() == times.len() - 1,
        times[i] <= times[i + 1] ==> times[i] + gaps(times)[i] == times[i + 1],
        times[i] > times[i + 1] ==> gaps(times)[i] == 0,
{
}

/// The pixel at a place of the frame is the pixel at that place of the picture, with
/// its colours the other way round and its fourth byte left out.
pub proof fn pixels_keep_their_place(
    pixels: Seq<u8>,
    stride: int,
    width: int,
    height: int,
    x: int,
    y: int,
)
    requires
        0 <= x < width,
        0 <= y < height,
    ensures
        ({
            let rgb = rgb_of(pixels, stride, width, height);
            let to = (y * width + x) * 3;
            let from = y * stride + x * 4;
            &&& rgb.len() == width * height * 3
            &&& 0 <= to && to + 2 < rgb.len()
            &&& rgb[to] == pixels[from + 2] && rgb[to + 1] == pixels[from + 1] && rgb[to + 2]
                == pixels[from]
        }),
{
    let p = y * width + x;
    assert(p / width == y && p % width == x && 0 <= p && p < width * height) by (nonlinear_arith)
        requires
            p == y * width + x,
            0 <= x < width,
            0 <= y < height,
    ;
    let to = p * 3;
    assert(width * height * 3 >= to + 3);
    assert(to / 3 == p && (to + 1) / 3 == p && (to + 2) / 3 == p);
    assert(to % 3 == 0 && (to + 1) % 3 == 1 && (to + 2) % 3 == 2);
}

} // verus!
