//! Building the image packets sent to a device.
//!
//! An uploaded button image is validated against the model's required pixel
//! size, rotated as the model's mounting orientation demands, encoded into
//! the model's container format (JPEG at maximum quality or an uncompressed
//! BMP), and the encoded byte stream is chunked into fixed-size packets,
//! each a model-specific header followed by payload bytes and zero padding.

use vstd::prelude::*;
use vstd::arithmetic::div_mod::lemma_basic_div;
use vstd::arithmetic::div_mod::lemma_div_plus_one;
use vstd::arithmetic::div_mod::lemma_fundamental_div_mod_converse;

use crate::error::StreamDeckError;
use crate::type_info::ImageTransformation;
use crate::type_info::StreamDeckImageFormat;
use crate::type_info::StreamDeckType;

verus! {

/// Widest image (in pixels per side) the packetizer accepts; keeps every
/// byte-count computation comfortably inside a 32-bit `usize`.
pub const MAX_IMAGE_DIMENSION: u32 = 4096;

/// An RGB pixel buffer: three bytes per pixel, row-major, rows top-down.
pub struct RgbImage {
    pub width: u32,
    pub height: u32,
    pub data: Vec<u8>,
}

impl RgbImage {
    /// A consistent image: bounded dimensions and exactly three bytes for
    /// each of its `width * height` pixels.
    pub open spec fn wf(&self) -> bool {
        self.width <= MAX_IMAGE_DIMENSION && self.height <= MAX_IMAGE_DIMENSION
            && self.data@.len() == 3 * self.width * self.height
    }

    /// A new all-black (all-zero) image of the given size.
    pub fn new(width: u32, height: u32) -> (r: RgbImage)
        requires
            width <= MAX_IMAGE_DIMENSION,
            height <= MAX_IMAGE_DIMENSION,
        ensures
            r.wf(),
            r.width == width,
            r.height == height,
            r.data@ == Seq::new((3 * width * height) as nat, |i: int| 0u8),
    {
        let row = 3usize * (width as usize);
        assert(row * height <= 12288 * 4096) by (nonlinear_arith)
            requires
                row <= 12288,
                height <= 4096,
        ;
        let total = row * (height as usize);
        let mut data: Vec<u8> = Vec::new();
        while data.len() < total
            invariant
                data@.len() <= total,
                forall|i: int| 0 <= i < data@.len() ==> data@[i] == 0u8,
            decreases total - data@.len(),
        {
            data.push(0);
        }
        proof {
            assert(total == 3 * width * height) by (nonlinear_arith)
                requires
                    row == 3 * width,
                    total == row * height,
            ;
            assert(data@ =~= Seq::new((3 * width * height) as nat, |i: int| 0u8));
        }
        RgbImage { width, height, data }
    }

    /// Wrap a raw byte buffer as an image, if its length is consistent with
    /// the given dimensions and the dimensions are within bounds.
    pub fn from_raw(width: u32, height: u32, data: Vec<u8>) -> (r: Option<RgbImage>)
        ensures
            r is Some <==> (width <= MAX_IMAGE_DIMENSION && height <= MAX_IMAGE_DIMENSION
                && data@.len() == 3 * width * height),
            r matches Some(img) ==> img.wf() && img.width == width && img.height == height
                && img.data@ == data@,
    {
        if width > MAX_IMAGE_DIMENSION || height > MAX_IMAGE_DIMENSION {
            return None;
        }
        let row = 3usize * (width as usize);
        assert(row * height <= 12288 * 4096) by (nonlinear_arith)
            requires
                row <= 12288,
                height <= 4096,
        ;
        let total = row * (height as usize);
        proof {
            assert(total == 3 * width * height) by (nonlinear_arith)
                requires
                    row == 3 * width,
                    total == row * height,
            ;
        }
        if data.len() != total {
            return None;
        }
        Some(RgbImage { width, height, data })
    }

    /// Whether this value is a consistent image; decides [`Self::wf`], so
    /// unverified callers can test it before handing the image on.
    pub fn is_wf(&self) -> (r: bool)
        ensures
            r == self.wf(),
    {
        if self.width > MAX_IMAGE_DIMENSION || self.height > MAX_IMAGE_DIMENSION {
            return false;
        }
        let row = 3usize * (self.width as usize);
        assert(row * self.height <= 12288 * 4096) by (nonlinear_arith)
            requires
                row <= 12288,
                self.height <= 4096,
        ;
        let total = row * (self.height as usize);
        proof {
            assert(total == 3 * self.width * self.height) by (nonlinear_arith)
                requires
                    row == 3 * self.width,
                    total == row * self.height,
            ;
        }
        self.data.len() == total
    }
}

/// The source index in the input image's flat buffer for index `i` of the flat
/// buffer of the 180-degree rotated image (same dimensions): output pixel
/// `(x, y)` is input pixel `(w - 1 - x, h - 1 - y)`.
pub open spec fn spec_rotate180_src(i: int, w: int, h: int) -> int {
    let p = i / 3;
    let c = i % 3;
    let x = p % w;
    let y = p / w;
    3 * ((h - 1 - y) * w + (w - 1 - x)) + c
}

/// The flat byte buffer of the image rotated by 180 degrees.
pub open spec fn spec_rotate180(data: Seq<u8>, w: int, h: int) -> Seq<u8> {
    Seq::new((3 * w * h) as nat, |i: int| data[spec_rotate180_src(i, w, h)])
}

/// The source index in the input image's flat buffer (width `w`) for index `i`
/// of the flat buffer of the 270-degrees-clockwise rotated image, whose
/// dimensions are `(h, w)`: output pixel `(x, y)` is input pixel
/// `(w - 1 - y, x)`.
pub open spec fn spec_rotate270_src(i: int, w: int, h: int) -> int {
    let p = i / 3;
    let c = i % 3;
    let x = p % h;
    let y = p / h;
    3 * (x * w + (w - 1 - y)) + c
}

/// The flat byte buffer of the image rotated by 270 degrees clockwise.
pub open spec fn spec_rotate270(data: Seq<u8>, w: int, h: int) -> Seq<u8> {
    Seq::new((3 * w * h) as nat, |i: int| data[spec_rotate270_src(i, w, h)])
}

/// Rotate an image by 180 degrees.
pub fn rotate180(image: &RgbImage) -> (r: RgbImage)
    requires
        image.wf(),
    ensures
        r.wf(),
        r.width == image.width,
        r.height == image.height,
        r.data@ == spec_rotate180(image.data@, image.width as int, image.height as int),
{
    let w = image.width as usize;
    let h = image.height as usize;
    let ghost wi = image.width as int;
    let ghost hi = image.height as int;
    let mut out: Vec<u8> = Vec::new();
    let mut y: usize = 0;
    while y < h
        invariant
            image.wf(),
            w == image.width && h == image.height,
            wi == image.width && hi == image.height,
            y <= h,
            out@.len() == 3 * (y * wi),
            forall|j: int|
                0 <= j < out@.len() ==> out@[j] == #[trigger] spec_rotate180(
                    image.data@,
                    wi,
                    hi,
                )[j],
        decreases h - y,
    {
        let mut x: usize = 0;
        while x < w
            invariant
                image.wf(),
                w == image.width && h == image.height,
                wi == image.width && hi == image.height,
                y < h,
                x <= w,
                out@.len() == 3 * (y * wi + x),
                forall|j: int|
                    0 <= j < out@.len() ==> out@[j] == #[trigger] spec_rotate180(
                        image.data@,
                        wi,
                        hi,
                    )[j],
            decreases w - x,
        {
            let ghost j0 = 3 * (y * wi + x);
            assert((h - 1 - y) * w + (w - 1 - x) < w * h && w * h <= 4096 * 4096
                && y * wi + x < wi * hi) by (nonlinear_arith)
                requires
                    x < w,
                    y < h,
                    w <= 4096,
                    h <= 4096,
                    wi == w,
                    hi == h,
            ;
            let src = 3 * ((h - 1 - y) * w + (w - 1 - x));
            proof {
                assert(3 * ((h - 1 - y) * w + (w - 1 - x)) + 2 < 3 * (w * h)
                    && 3 * (y * wi + x) + 2 < 3 * (wi * hi)) by (nonlinear_arith)
                    requires
                        (h - 1 - y) * w + (w - 1 - x) < w * h,
                        y * wi + x < wi * hi,
                        wi == w,
                        hi == h,
                ;
                assert(image.data@.len() == 3 * (wi * hi)) by (nonlinear_arith)
                    requires
                        image.data@.len() == 3 * image.width * image.height,
                        wi == image.width,
                        hi == image.height,
                ;
            }
            let b0 = image.data[src];
            let b1 = image.data[src + 1];
            let b2 = image.data[src + 2];
            out.push(b0);
            out.push(b1);
            out.push(b2);
            proof {
                let p = y * wi + x;
                lemma_fundamental_div_mod_converse(p, wi, y as int, x as int);
                assert forall|c: int| 0 <= c < 3 implies #[trigger] spec_rotate180(
                    image.data@,
                    wi,
                    hi,
                )[j0 + c] == image.data@[src + c] by {
                    lemma_fundamental_div_mod_converse(j0 + c, 3, p, c);
                    assert(spec_rotate180_src(j0 + c, wi, hi) == 3 * ((hi - 1 - y) * wi + (wi - 1
                        - x)) + c);
                }
                assert(out@[j0] == spec_rotate180(image.data@, wi, hi)[j0]);
                assert(out@[j0 + 1] == spec_rotate180(image.data@, wi, hi)[j0 + 1]);
                assert(out@[j0 + 2] == spec_rotate180(image.data@, wi, hi)[j0 + 2]);
            }
            x += 1;
        }
        y += 1;
        proof {
            assert(3 * ((y - 1) * wi + w) == 3 * (y * wi)) by (nonlinear_arith)
                requires
                    wi == w,
                    y >= 1,
            ;
        }
    }
    proof {
        assert(3 * wi * hi == 3 * (hi * wi)) by (nonlinear_arith);
        assert(out@ =~= spec_rotate180(image.data@, wi, hi));
    }
    RgbImage { width: image.width, height: image.height, data: out }
}

/// Rotate an image by 270 degrees clockwise; the result has the width and
/// height swapped.
pub fn rotate270(image: &RgbImage) -> (r: RgbImage)
    requires
        image.wf(),
    ensures
        r.wf(),
        r.width == image.height,
        r.height == image.width,
        r.data@ == spec_rotate270(image.data@, image.width as int, image.height as int),
{
    let w = image.width as usize;
    let h = image.height as usize;
    let ghost wi = image.width as int;
    let ghost hi = image.height as int;
    let mut out: Vec<u8> = Vec::new();
    // The output image has width h and height w; fill it row-major.
    let mut y: usize = 0;
    while y < w
        invariant
            image.wf(),
            w == image.width && h == image.height,
            wi == image.width && hi == image.height,
            y <= w,
            out@.len() == 3 * (y * hi),
            forall|j: int|
                0 <= j < out@.len() ==> out@[j] == #[trigger] spec_rotate270(
                    image.data@,
                    wi,
                    hi,
                )[j],
        decreases w - y,
    {
        let mut x: usize = 0;
        while x < h
            invariant
                image.wf(),
                w == image.width && h == image.height,
                wi == image.width && hi == image.height,
                y < w,
                x <= h,
                out@.len() == 3 * (y * hi + x),
                forall|j: int|
                    0 <= j < out@.len() ==> out@[j] == #[trigger] spec_rotate270(
                        image.data@,
                        wi,
                        hi,
                    )[j],
            decreases h - x,
        {
            let ghost j0 = 3 * (y * hi + x);
            assert(x * w + (w - 1 - y) < w * h && w * h <= 4096 * 4096 && y * hi + x < wi
                * hi) by (nonlinear_arith)
                requires
                    x < h,
                    y < w,
                    w <= 4096,
                    h <= 4096,
                    wi == w,
                    hi == h,
            ;
            let src = 3 * (x * w + (w - 1 - y));
            proof {
                assert(3 * (x * w + (w - 1 - y)) + 2 < 3 * (w * h) && 3 * (y * hi + x) + 2 < 3 * (
                wi * hi)) by (nonlinear_arith)
                    requires
                        x * w + (w - 1 - y) < w * h,
                        y * hi + x < wi * hi,
                        wi == w,
                        hi == h,
                ;
                assert(image.data@.len() == 3 * (wi * hi)) by (nonlinear_arith)
                    requires
                        image.data@.len() == 3 * image.width * image.height,
                        wi == image.width,
                        hi == image.height,
                ;
            }
            let b0 = image.data[src];
            let b1 = image.data[src + 1];
            let b2 = image.data[src + 2];
            out.push(b0);
            out.push(b1);
            out.push(b2);
            proof {
                let p = y * hi + x;
                lemma_fundamental_div_mod_converse(p, hi, y as int, x as int);
                assert forall|c: int| 0 <= c < 3 implies #[trigger] spec_rotate270(
                    image.data@,
                    wi,
                    hi,
                )[j0 + c] == image.data@[src + c] by {
                    lemma_fundamental_div_mod_converse(j0 + c, 3, p, c);
                    assert(spec_rotate270_src(j0 + c, wi, hi) == 3 * (x * wi + (wi - 1 - y)) + c);
                }
                assert(out@[j0] == spec_rotate270(image.data@, wi, hi)[j0]);
                assert(out@[j0 + 1] == spec_rotate270(image.data@, wi, hi)[j0 + 1]);
                assert(out@[j0 + 2] == spec_rotate270(image.data@, wi, hi)[j0 + 2]);
            }
            x += 1;
        }
        y += 1;
        proof {
            assert(3 * ((y - 1) * hi + h) == 3 * (y * hi)) by (nonlinear_arith)
                requires
                    hi == h,
                    y >= 1,
            ;
        }
    }
    proof {
        assert(3 * wi * hi == 3 * (wi * hi)) by (nonlinear_arith);
        assert(3 * hi * wi == 3 * (wi * hi)) by (nonlinear_arith);
        assert(out@ =~= spec_rotate270(image.data@, wi, hi));
    }
    RgbImage { width: image.height, height: image.width, data: out }
}

/// The magic bytes (first two bytes) of each image container format.
pub open spec fn spec_format_magic(format: StreamDeckImageFormat) -> (u8, u8) {
    match format {
        StreamDeckImageFormat::Bmp => (0x42u8, 0x4du8),
        StreamDeckImageFormat::Jpeg => (0xffu8, 0xd8u8),
    }
}

/// The bytes of the uncompressed BMP container that the encoder produces
/// for an RGB buffer of the given dimensions.
pub uninterp spec fn bmp_bytes(data: Seq<u8>, width: u32, height: u32) -> Seq<u8>;

/// The bytes of the maximum-quality JPEG container that the encoder
/// produces for an RGB buffer of the given dimensions.
pub uninterp spec fn jpeg_bytes(data: Seq<u8>, width: u32, height: u32) -> Seq<u8>;

/// Relies on image::codecs::bmp::BmpEncoder::encode with ColorType::Rgb8:
/// for a buffer of exactly 3 * width * height bytes and bounded dimensions,
/// writing into a Vec cannot fail; the output is a function of the pixel
/// bytes and dimensions alone and starts with the BMP magic "BM".
#[verifier::external_body]
fn encode_bmp(data: &Vec<u8>, width: u32, height: u32) -> (r: Result<Vec<u8>, String>)
    requires
        data@.len() == 3 * width * height,
        width <= MAX_IMAGE_DIMENSION,
        height <= MAX_IMAGE_DIMENSION,
    ensures
        r is Ok,
        r matches Ok(v) ==> v@ == bmp_bytes(data@, width, height) && v@.len() >= 2 && v@[0]
            == 0x42u8 && v@[1] == 0x4du8,
{
    let mut out: Vec<u8> = Vec::new();
    let result = image::codecs::bmp::BmpEncoder::new(&mut out).encode(
        data.as_slice(),
        width,
        height,
        image::ColorType::Rgb8,
    );
    match result {
        Ok(()) => Ok(out),
        Err(e) => Err(format!("{e}")),
    }
}

/// Relies on image::codecs::jpeg::JpegEncoder::new_with_quality(.., 100)
/// and its encode with ColorType::Rgb8: for a buffer of exactly
/// 3 * width * height bytes and dimensions at most 4096, writing into a Vec
/// cannot fail; the output is a function of the pixel bytes and dimensions
/// alone and starts with the JPEG start-of-image marker 0xff 0xd8.
#[verifier::external_body]
fn encode_jpeg(data: &Vec<u8>, width: u32, height: u32) -> (r: Result<Vec<u8>, String>)
    requires
        data@.len() == 3 * width * height,
        width <= MAX_IMAGE_DIMENSION,
        height <= MAX_IMAGE_DIMENSION,
    ensures
        r is Ok,
        r matches Ok(v) ==> v@ == jpeg_bytes(data@, width, height) && v@.len() >= 2 && v@[0]
            == 0xffu8 && v@[1] == 0xd8u8,
{
    let mut out: Vec<u8> = Vec::new();
    let mut encoder = image::codecs::jpeg::JpegEncoder::new_with_quality(&mut out, 100);
    let result = encoder.encode(data.as_slice(), width, height, image::ColorType::Rgb8);
    match result {
        Ok(()) => Ok(out),
        Err(e) => Err(format!("{e}")),
    }
}

/// The encoded byte stream a correctly sized image turns into for a model:
/// the image rotated as the model requires, then encoded into the model's
/// container format.
pub open spec fn spec_encoded_image(device_type: StreamDeckType, image: RgbImage) -> Seq<u8> {
    let rotated = if device_type.spec_button_image_transformation()
        == ImageTransformation::Rotate180 {
        (spec_rotate180(image.data@, image.width as int, image.height as int), image.width,
        image.height)
    } else {
        (spec_rotate270(image.data@, image.width as int, image.height as int), image.height,
        image.width)
    };
    match device_type.spec_button_image_format() {
        StreamDeckImageFormat::Bmp => bmp_bytes(rotated.0, rotated.1, rotated.2),
        StreamDeckImageFormat::Jpeg => jpeg_bytes(rotated.0, rotated.1, rotated.2),
    }
}

/// The payload size of the next packet: as many of the remaining encoded
/// bytes as fit.
pub open spec fn spec_payload_size(device_type: StreamDeckType, remaining: int) -> int {
    if device_type.spec_max_payload_size() < remaining {
        device_type.spec_max_payload_size()
    } else {
        remaining
    }
}

/// One image packet: the model's header for this page, then the payload
/// bytes, then zero padding up to the fixed packet size.  `encoded` holds
/// the bytes still to send; the header is built from that remaining count,
/// so its final-page flag is set exactly when this packet carries all of
/// it.  `page` is the 0-based page number, of which the header embeds the
/// low 16 bits.
pub open spec fn spec_image_package(
    device_type: StreamDeckType,
    encoded: Seq<u8>,
    btn_index: u8,
    page: int,
) -> Seq<u8> {
    let payload = spec_payload_size(device_type, encoded.len() as int);
    let header = device_type.spec_image_package_header(
        encoded.len() as int,
        btn_index,
        page % 0x10000,
    );
    let hlen = device_type.spec_image_package_header_len();
    Seq::new(
        device_type.spec_image_package_size() as nat,
        |i: int|
            if i < hlen {
                header[i]
            } else if i < hlen + payload {
                encoded[i - hlen]
            } else {
                0u8
            },
    )
}

/// The packets an encoded byte stream is chunked into, starting at the
/// given page number: one packet per `max_payload_size` bytes (the last one
/// shorter), in send order.  An empty stream yields no packets.
pub open spec fn spec_image_packages_from(
    device_type: StreamDeckType,
    encoded: Seq<u8>,
    btn_index: u8,
    page: int,
) -> Seq<Seq<u8>>
    decreases encoded.len(),
{
    if encoded.len() == 0 {
        Seq::empty()
    } else {
        let payload = spec_payload_size(device_type, encoded.len() as int);
        seq![spec_image_package(device_type, encoded, btn_index, page)]
            + spec_image_packages_from(device_type, encoded.skip(payload), btn_index, page + 1)
    }
}

/// The packets an encoded byte stream is chunked into, first page 0.
pub open spec fn spec_image_packages(
    device_type: StreamDeckType,
    encoded: Seq<u8>,
    btn_index: u8,
) -> Seq<Seq<u8>> {
    spec_image_packages_from(device_type, encoded, btn_index, 0)
}

/// Law: the number of packets an encoded stream yields is its length
/// divided by the model's maximum payload size, rounded up.
pub proof fn lemma_image_packages_count(
    device_type: StreamDeckType,
    encoded: Seq<u8>,
    btn_index: u8,
    page: int,
)
    ensures
        spec_image_packages_from(device_type, encoded, btn_index, page).len() == if encoded.len()
            == 0 {
            0int
        } else {
            (encoded.len() - 1) / device_type.spec_max_payload_size() + 1
        },
    decreases encoded.len(),
{
    let mp = device_type.spec_max_payload_size();
    if encoded.len() == 0 {
    } else {
        let payload = spec_payload_size(device_type, encoded.len() as int);
        lemma_image_packages_count(device_type, encoded.skip(payload), btn_index, page + 1);
        if encoded.len() <= mp {
            lemma_basic_div(encoded.len() - 1, mp);
        } else {
            lemma_div_plus_one(encoded.len() - mp - 1, mp);
        }
    }
}

/// Law: the first packet of a nonempty encoded stream carries the first
/// encoded bytes right after the header.
pub proof fn lemma_first_image_package_payload(
    device_type: StreamDeckType,
    encoded: Seq<u8>,
    btn_index: u8,
)
    requires
        encoded.len() > 0,
    ensures
        ({
            let packages = spec_image_packages(device_type, encoded, btn_index);
            let payload = spec_payload_size(device_type, encoded.len() as int);
            let hlen = device_type.spec_image_package_header_len();
            &&& packages.len() >= 1
            &&& packages[0].len() == device_type.spec_image_package_size()
            &&& forall|i: int| 0 <= i < payload ==> packages[0][hlen + i] == encoded[i]
        }),
{
    let packages = spec_image_packages(device_type, encoded, btn_index);
    assert(packages[0] == spec_image_package(device_type, encoded, btn_index, 0));
}

/// Law: in the large-buffer family, the final-page flag (header byte 3)
/// is set on the last packet of an upload and clear on every packet
/// before it.
pub proof fn lemma_final_flag_marks_last_package(
    device_type: StreamDeckType,
    encoded: Seq<u8>,
    btn_index: u8,
    page: int,
)
    requires
        device_type.spec_is_large_packet_family(),
    ensures
        ({
            let packages = spec_image_packages_from(device_type, encoded, btn_index, page);
            forall|i: int|
                0 <= i < packages.len() ==> (#[trigger] packages[i])[3] == (if i
                    == packages.len() - 1 {
                    0x01u8
                } else {
                    0x00u8
                })
        }),
    decreases encoded.len(),
{
    if encoded.len() > 0 {
        let mp = device_type.spec_max_payload_size();
        let payload = spec_payload_size(device_type, encoded.len() as int);
        let rest = spec_image_packages_from(
            device_type,
            encoded.skip(payload),
            btn_index,
            page + 1,
        );
        lemma_final_flag_marks_last_package(
            device_type,
            encoded.skip(payload),
            btn_index,
            page + 1,
        );
        let packages = spec_image_packages_from(device_type, encoded, btn_index, page);
        let packet = spec_image_package(device_type, encoded, btn_index, page);
        let header = device_type.spec_image_package_header(
            encoded.len() as int,
            btn_index,
            page % 0x10000,
        );
        assert(packages == seq![packet] + rest);
        assert(packet[3] == header[3]);
        if encoded.len() <= mp {
            assert(rest.len() == 0);
            assert(header[3] == 0x01u8);
        } else {
            assert(encoded.skip(payload).len() > 0);
            assert(rest.len() >= 1);
            assert(header[3] == 0x00u8);
        }
        assert forall|i: int|
            0 <= i < packages.len() implies (#[trigger] packages[i])[3] == (if i
                == packages.len() - 1 {
                0x01u8
            } else {
                0x00u8
            }) by {
            if i > 0 {
                assert(packages[i] == rest[i - 1]);
            }
        }
    }
}

/// Chunk an already encoded image byte stream into the device's image
/// packets, in send order, numbering pages from 0.
pub fn encoded_image_packages(
    device_type: StreamDeckType,
    encoded: &Vec<u8>,
    btn_index: u8,
) -> (r: Vec<Vec<u8>>)
    ensures
        r.deep_view() == spec_image_packages(device_type, encoded@, btn_index),
{
    let total = encoded.len();
    let max_payload = device_type.max_payload_size();
    let pkg_size = device_type.image_package_size();
    let mut result: Vec<Vec<u8>> = Vec::new();
    let mut sent: usize = 0;
    let mut page: usize = 0;
    proof {
        assert(encoded@.skip(0) =~= encoded@);
        assert(result.deep_view() =~= Seq::<Seq<u8>>::empty());
        assert(spec_image_packages(device_type, encoded@, btn_index) =~= result.deep_view()
            + spec_image_packages_from(device_type, encoded@.skip(0), btn_index, 0));
    }
    while sent < total
        invariant
            total == encoded@.len(),
            max_payload == device_type.spec_max_payload_size(),
            pkg_size == device_type.spec_image_package_size(),
            sent <= total,
            sent == page * max_payload || sent == total,
            result.deep_view().len() == page,
            spec_image_packages(device_type, encoded@, btn_index) == result.deep_view()
                + spec_image_packages_from(
                device_type,
                encoded@.skip(sent as int),
                btn_index,
                page as int,
            ),
        decreases total - sent,
    {
        proof {
            assert(page < total) by (nonlinear_arith)
                requires
                    sent == page * max_payload,
                    sent < total,
                    max_payload >= 1,
            ;
        }
        let remaining = total - sent;
        let payload_size = if max_payload < remaining {
            max_payload
        } else {
            remaining
        };
        let header = device_type.image_package_header(
            remaining,
            btn_index,
            (page % 0x10000) as u16,
        );
        let ghost rem_seq = encoded@.skip(sent as int);
        let ghost packet_spec = spec_image_package(
            device_type,
            rem_seq,
            btn_index,
            page as int,
        );
        proof {
            assert(rem_seq.len() == total - sent);
            assert(spec_payload_size(device_type, rem_seq.len() as int) == payload_size);
            assert((page % 0x10000) as u16 as int == (page as int) % 0x10000);
            assert(header@.len() == device_type.spec_image_package_header_len());
            assert(header@.len() + payload_size <= pkg_size);
        }
        let hlen = header.len();
        let mut package: Vec<u8> = Vec::new();
        let mut i: usize = 0;
        while i < hlen
            invariant
                i <= hlen,
                hlen == header@.len(),
                package@.len() == i,
                forall|k: int| 0 <= k < i ==> package@[k] == header@[k],
            decreases hlen - i,
        {
            package.push(header[i]);
            i += 1;
        }
        let mut j: usize = 0;
        while j < payload_size
            invariant
                j <= payload_size,
                hlen == header@.len(),
                sent + payload_size <= total,
                total == encoded@.len(),
                package@.len() == hlen + j,
                forall|k: int| 0 <= k < hlen ==> package@[k] == header@[k],
                forall|k: int|
                    hlen <= k < hlen + j ==> #[trigger] package@[k] == encoded@[sent + (k
                        - hlen)],
            decreases payload_size - j,
        {
            package.push(encoded[sent + j]);
            j += 1;
        }
        while package.len() < pkg_size
            invariant
                hlen == header@.len(),
                hlen + payload_size <= package@.len() <= pkg_size,
                forall|k: int| 0 <= k < hlen ==> package@[k] == header@[k],
                forall|k: int|
                    hlen <= k < hlen + payload_size ==> #[trigger] package@[k] == encoded@[sent
                        + (k - hlen)],
                forall|k: int|
                    hlen + payload_size <= k < package@.len() ==> package@[k] == 0u8,
            decreases pkg_size - package@.len(),
        {
            package.push(0);
        }
        proof {
            assert forall|idx: int| 0 <= idx < pkg_size implies package@[idx]
                == packet_spec[idx] by {
                if hlen <= idx < hlen + payload_size {
                    assert(rem_seq[idx - hlen] == encoded@[sent + (idx - hlen)]);
                }
            }
            assert(package@ =~= packet_spec);
        }
        let ghost old_deep = result.deep_view();
        let ghost package_view = package@;
        proof {
            assert(package.deep_view() =~= package_view);
        }
        result.push(package);
        proof {
            assert(result.deep_view() =~= old_deep.push(package_view));
            assert(spec_image_packages_from(
                device_type,
                rem_seq,
                btn_index,
                page as int,
            ) == seq![packet_spec] + spec_image_packages_from(
                device_type,
                rem_seq.skip(payload_size as int),
                btn_index,
                page + 1,
            ));
            assert(rem_seq.skip(payload_size as int) =~= encoded@.skip(
                sent + payload_size,
            ));
            assert(old_deep + spec_image_packages_from(
                device_type,
                rem_seq,
                btn_index,
                page as int,
            ) =~= old_deep.push(package_view) + spec_image_packages_from(
                device_type,
                encoded@.skip(sent + payload_size),
                btn_index,
                page + 1,
            ));
            if payload_size == max_payload {
                assert((page + 1) * max_payload == page * max_payload + max_payload)
                    by (nonlinear_arith);
            }
        }
        sent += payload_size;
        page += 1;
    }
    proof {
        assert(encoded@.skip(sent as int) =~= Seq::<u8>::empty());
        assert(spec_image_packages_from(
            device_type,
            encoded@.skip(sent as int),
            btn_index,
            page as int,
        ) =~= Seq::<Seq<u8>>::empty());
        assert(result.deep_view() =~= spec_image_packages(device_type, encoded@, btn_index));
    }
    result
}

/// Build the packets that upload `image` to the button at `btn_index`.
///
/// An image whose size differs from the model's required button image size
/// is rejected with `DimensionMismatch` carrying the expected size.  A
/// correctly sized image is rotated as the model requires, encoded into the
/// model's container format, and chunked into packets; the first packet's
/// payload starts with the container format's magic bytes.
pub fn image_packages(
    device_type: StreamDeckType,
    image: &RgbImage,
    btn_index: u8,
) -> (r: Result<Vec<Vec<u8>>, StreamDeckError>)
    requires
        image.wf(),
    ensures
        (image.width != device_type.spec_button_image_size().0 || image.height
            != device_type.spec_button_image_size().1) <==> r == Err::<
            Vec<Vec<u8>>,
            StreamDeckError,
        >(
            StreamDeckError::DimensionMismatch(
                device_type.spec_button_image_size().0,
                device_type.spec_button_image_size().1,
            ),
        ),
        (image.width == device_type.spec_button_image_size().0 && image.height
            == device_type.spec_button_image_size().1) ==> ({
            let encoded = spec_encoded_image(device_type, *image);
            let packages = spec_image_packages(device_type, encoded, btn_index);
            let magic = spec_format_magic(device_type.spec_button_image_format());
            let hlen = device_type.spec_image_package_header_len();
            &&& (r matches Ok(p) && p.deep_view() == packages)
            &&& encoded.len() >= 2
            &&& encoded[0] == magic.0 && encoded[1] == magic.1
            &&& packages.len() >= 1
            &&& packages[0][hlen] == magic.0 && packages[0][hlen + 1] == magic.1
        }),
{
    let (expected_width, expected_height) = device_type.button_image_size();
    if image.width != expected_width || image.height != expected_height {
        return Err(StreamDeckError::DimensionMismatch(expected_width, expected_height));
    }
    let transformed = match device_type.button_image_transformation() {
        ImageTransformation::Rotate180 => rotate180(image),
        ImageTransformation::Rotate270 => rotate270(image),
    };
    let encode_result = match device_type.button_image_format() {
        StreamDeckImageFormat::Bmp => encode_bmp(
            &transformed.data,
            transformed.width,
            transformed.height,
        ),
        StreamDeckImageFormat::Jpeg => encode_jpeg(
            &transformed.data,
            transformed.width,
            transformed.height,
        ),
    };
    let encoded = match encode_result {
        Ok(encoded) => encoded,
        Err(message) => {
            return Err(StreamDeckError::ImageEncodingError(message));
        },
    };
    proof {
        assert(encoded@ == spec_encoded_image(device_type, *image));
        lemma_first_image_package_payload(device_type, encoded@, btn_index);
    }
    let packages = encoded_image_packages(device_type, &encoded, btn_index);
    Ok(packages)
}

} // verus!
