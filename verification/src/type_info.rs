//! Per-model protocol parameters for the known Stream Deck device models.
//!
//! The model is the closed enum [`StreamDeckType`]; every other piece of
//! information (geometry, image format, identifiers, packet layouts) is a
//! pure function of it.  Two packet families exist: the large-buffer models
//! (`Xl`, `OrigV2`) use 1024-byte image packets with an 8-byte header, the
//! small-buffer models (`Orig`, `Mini`) use 8191-byte packets with a 16-byte
//! header and a fixed maximum payload.

use vstd::prelude::*;
use vstd::arithmetic::div_mod::lemma_fundamental_div_mod;
use vstd::arithmetic::div_mod::lemma_small_mod;

verus! {

/// The Stream Deck device models known to this crate.
#[derive(Clone, Copy, PartialEq, Eq, Structural, Debug)]
pub enum StreamDeckType {
    Xl,
    OrigV2,
    Orig,
    Mini,
}

/// The image container formats used by the devices.
#[derive(Clone, Copy, PartialEq, Eq, Structural, Debug)]
pub enum StreamDeckImageFormat {
    Jpeg,
    Bmp,
}

/// The geometric transform a button image needs before encoding.
#[derive(Clone, Copy, PartialEq, Eq, Structural, Debug)]
pub enum ImageTransformation {
    Rotate180,
    Rotate270,
}

impl StreamDeckType {
    /// Whether the model belongs to the large-buffer packet family.
    pub open spec fn spec_is_large_packet_family(self) -> bool {
        self == StreamDeckType::Xl || self == StreamDeckType::OrigV2
    }

    /// The human readable name of the model.
    pub open spec fn spec_name(self) -> Seq<char> {
        match self {
            StreamDeckType::Xl => "Streamdeck XL"@,
            StreamDeckType::OrigV2 => "Streamdeck (original v2)"@,
            StreamDeckType::Orig => "Streamdeck original"@,
            StreamDeckType::Mini => "Streamdeck Mini"@,
        }
    }

    /// The name of the model, as a human readable string.
    pub fn name(&self) -> (r: &'static str)
        ensures
            r@ == self.spec_name(),
    {
        match *self {
            StreamDeckType::Xl => "Streamdeck XL",
            StreamDeckType::OrigV2 => "Streamdeck (original v2)",
            StreamDeckType::Orig => "Streamdeck original",
            StreamDeckType::Mini => "Streamdeck Mini",
        }
    }

    /// Rows and columns of buttons on the device.
    pub open spec fn spec_num_buttons(self) -> (u32, u32) {
        match self {
            StreamDeckType::Xl => (4u32, 8u32),
            StreamDeckType::OrigV2 => (3u32, 5u32),
            StreamDeckType::Orig => (3u32, 5u32),
            StreamDeckType::Mini => (2u32, 3u32),
        }
    }

    /// The number of buttons, as a tuple of rows and columns.
    pub fn num_buttons(&self) -> (r: (u32, u32))
        ensures
            r == self.spec_num_buttons(),
    {
        match *self {
            StreamDeckType::Xl => (4, 8),
            StreamDeckType::OrigV2 => (3, 5),
            StreamDeckType::Orig => (3, 5),
            StreamDeckType::Mini => (2, 3),
        }
    }

    /// The total number of buttons on the device.
    pub open spec fn spec_total_num_buttons(self) -> int {
        self.spec_num_buttons().0 * self.spec_num_buttons().1
    }

    /// The total number of buttons: always rows times columns.
    pub fn total_num_buttons(&self) -> (r: usize)
        ensures
            r == self.spec_total_num_buttons(),
            r == self.spec_num_buttons().0 * self.spec_num_buttons().1,
            (*self == StreamDeckType::Xl ==> r == 32)
                && (*self == StreamDeckType::OrigV2 ==> r == 15)
                && (*self == StreamDeckType::Orig ==> r == 15)
                && (*self == StreamDeckType::Mini ==> r == 6),
    {
        let (x, y) = self.num_buttons();
        (x * y) as usize
    }

    /// The image container format used by the model.
    pub open spec fn spec_button_image_format(self) -> StreamDeckImageFormat {
        match self {
            StreamDeckType::Xl => StreamDeckImageFormat::Jpeg,
            StreamDeckType::OrigV2 => StreamDeckImageFormat::Jpeg,
            StreamDeckType::Orig => StreamDeckImageFormat::Bmp,
            StreamDeckType::Mini => StreamDeckImageFormat::Bmp,
        }
    }

    /// The image format used by the model when uploading button images.
    pub fn button_image_format(&self) -> (r: StreamDeckImageFormat)
        ensures
            r == self.spec_button_image_format(),
    {
        match *self {
            StreamDeckType::Xl => StreamDeckImageFormat::Jpeg,
            StreamDeckType::OrigV2 => StreamDeckImageFormat::Jpeg,
            StreamDeckType::Orig => StreamDeckImageFormat::Bmp,
            StreamDeckType::Mini => StreamDeckImageFormat::Bmp,
        }
    }

    /// The pixel size (width, height) a button image must have.
    pub open spec fn spec_button_image_size(self) -> (u32, u32) {
        match self {
            StreamDeckType::Xl => (96u32, 96u32),
            StreamDeckType::OrigV2 => (72u32, 72u32),
            StreamDeckType::Orig => (72u32, 72u32),
            StreamDeckType::Mini => (80u32, 80u32),
        }
    }

    /// The expected pixel size of uploaded button images, as (width, height).
    pub fn button_image_size(&self) -> (r: (u32, u32))
        ensures
            r == self.spec_button_image_size(),
            r.0 <= 96 && r.1 <= 96 && r.0 >= 1 && r.1 >= 1,
    {
        match *self {
            StreamDeckType::Xl => (96, 96),
            StreamDeckType::OrigV2 => (72, 72),
            StreamDeckType::Orig => (72, 72),
            StreamDeckType::Mini => (80, 80),
        }
    }

    /// The USB product id of the model.
    pub open spec fn spec_product_id(self) -> u16 {
        match self {
            StreamDeckType::Xl => 0x6cu16,
            StreamDeckType::OrigV2 => 0x6du16,
            StreamDeckType::Orig => 0x60u16,
            StreamDeckType::Mini => 0x63u16,
        }
    }

    /// Get the USB product id of this model.
    pub fn get_product_id(&self) -> (r: u16)
        ensures
            r == self.spec_product_id(),
    {
        match *self {
            StreamDeckType::Xl => 0x6c,
            StreamDeckType::OrigV2 => 0x6d,
            StreamDeckType::Orig => 0x60,
            StreamDeckType::Mini => 0x63,
        }
    }

    /// The USB vendor id; the same for every known model.
    pub open spec fn spec_vendor_id(self) -> u16 {
        0x0fd9u16
    }

    /// Get the USB vendor id of this model.
    pub fn get_vendor_id(&self) -> (r: u16)
        ensures
            r == self.spec_vendor_id(),
    {
        0x0fd9
    }

    /// The model whose vendor and product ids match exactly, if any.
    pub open spec fn spec_from_ids(vendor_id: u16, product_id: u16) -> Option<StreamDeckType> {
        if vendor_id == 0x0fd9u16 {
            if product_id == 0x6cu16 {
                Some(StreamDeckType::Xl)
            } else if product_id == 0x6du16 {
                Some(StreamDeckType::OrigV2)
            } else if product_id == 0x60u16 {
                Some(StreamDeckType::Orig)
            } else if product_id == 0x63u16 {
                Some(StreamDeckType::Mini)
            } else {
                None
            }
        } else {
            None
        }
    }

    /// Resolve a model from vendor and product ids.
    ///
    /// Returns `Some` exactly for the id pairs of the known models and `None`
    /// for every other pair, including swapped vendor/product values.
    pub fn from_vendor_and_product_id(vendor_id: u16, product_id: u16) -> (r: Option<
        StreamDeckType,
    >)
        ensures
            r == Self::spec_from_ids(vendor_id, product_id),
            r matches Some(t) ==> vendor_id == t.spec_vendor_id() && product_id
                == t.spec_product_id(),
            r is None <==> (forall|t: StreamDeckType|
                !(vendor_id == t.spec_vendor_id() && product_id == t.spec_product_id())),
    {
        let r = if vendor_id == 0x0fd9 {
            if product_id == 0x6c {
                Some(StreamDeckType::Xl)
            } else if product_id == 0x6d {
                Some(StreamDeckType::OrigV2)
            } else if product_id == 0x60 {
                Some(StreamDeckType::Orig)
            } else if product_id == 0x63 {
                Some(StreamDeckType::Mini)
            } else {
                None
            }
        } else {
            None
        };
        proof {
            if r is None {
                assert forall|t: StreamDeckType|
                    !(vendor_id == t.spec_vendor_id() && product_id
                        == t.spec_product_id()) by {
                    match t {
                        StreamDeckType::Xl => {},
                        StreamDeckType::OrigV2 => {},
                        StreamDeckType::Orig => {},
                        StreamDeckType::Mini => {},
                    }
                }
            } else {
                let t = r->Some_0;
                assert(vendor_id == t.spec_vendor_id() && product_id == t.spec_product_id());
            }
        }
        r
    }

    /// The brightness command packet for the model, carrying `brightness`.
    pub open spec fn spec_brightness_packet(self, brightness: u8) -> Seq<u8> {
        if self.spec_is_large_packet_family() {
            Seq::new(
                32,
                |i: int|
                    if i == 0 {
                        0x03u8
                    } else if i == 1 {
                        0x08u8
                    } else if i == 2 {
                        brightness
                    } else {
                        0u8
                    },
            )
        } else {
            Seq::new(
                17,
                |i: int|
                    if i == 0 {
                        0x05u8
                    } else if i == 1 {
                        0x55u8
                    } else if i == 2 {
                        0xaau8
                    } else if i == 3 {
                        0xd1u8
                    } else if i == 4 {
                        0x01u8
                    } else if i == 5 {
                        brightness
                    } else {
                        0u8
                    },
            )
        }
    }

    /// The byte packet that sets the brightness of the device.
    ///
    /// The brightness value is embedded as given; callers are expected to
    /// stay within 0..=100.
    pub fn brightness_packet(&self, brightness: u8) -> (r: Vec<u8>)
        ensures
            r@ == self.spec_brightness_packet(brightness),
            self.spec_is_large_packet_family() ==> r@.len() == 32 && r@[2] == brightness,
            !self.spec_is_large_packet_family() ==> r@.len() == 17 && r@[5] == brightness,
    {
        let mut cmd: Vec<u8> = Vec::new();
        match *self {
            StreamDeckType::Xl | StreamDeckType::OrigV2 => {
                cmd.push(0x03);
                cmd.push(0x08);
                cmd.push(brightness);
                while cmd.len() < 32
                    invariant
                        3 <= cmd@.len() <= 32,
                        cmd@[0] == 0x03u8 && cmd@[1] == 0x08u8 && cmd@[2] == brightness,
                        forall|j: int| 3 <= j < cmd@.len() ==> cmd@[j] == 0u8,
                    decreases 32 - cmd@.len(),
                {
                    cmd.push(0);
                }
                assert(cmd@ =~= self.spec_brightness_packet(brightness));
            },
            StreamDeckType::Orig | StreamDeckType::Mini => {
                cmd.push(0x05);
                cmd.push(0x55);
                cmd.push(0xaa);
                cmd.push(0xd1);
                cmd.push(0x01);
                cmd.push(brightness);
                while cmd.len() < 17
                    invariant
                        6 <= cmd@.len() <= 17,
                        cmd@[0] == 0x05u8 && cmd@[1] == 0x55u8 && cmd@[2] == 0xaau8,
                        cmd@[3] == 0xd1u8 && cmd@[4] == 0x01u8 && cmd@[5] == brightness,
                        forall|j: int| 6 <= j < cmd@.len() ==> cmd@[j] == 0u8,
                    decreases 17 - cmd@.len(),
                {
                    cmd.push(0);
                }
                assert(cmd@ =~= self.spec_brightness_packet(brightness));
            },
        }
        cmd
    }

    /// The reset command packet for the model.
    pub open spec fn spec_reset_packet(self) -> Seq<u8> {
        if self.spec_is_large_packet_family() {
            Seq::new(
                32,
                |i: int|
                    if i == 0 {
                        0x03u8
                    } else if i == 1 {
                        0x02u8
                    } else {
                        0u8
                    },
            )
        } else {
            Seq::new(
                17,
                |i: int|
                    if i == 0 {
                        0x0bu8
                    } else if i == 1 {
                        0x63u8
                    } else {
                        0u8
                    },
            )
        }
    }

    /// The byte packet that resets the device.
    pub fn reset_packet(&self) -> (r: Vec<u8>)
        ensures
            r@ == self.spec_reset_packet(),
    {
        let mut cmd: Vec<u8> = Vec::new();
        match *self {
            StreamDeckType::Xl | StreamDeckType::OrigV2 => {
                cmd.push(0x03);
                cmd.push(0x02);
                while cmd.len() < 32
                    invariant
                        2 <= cmd@.len() <= 32,
                        cmd@[0] == 0x03u8 && cmd@[1] == 0x02u8,
                        forall|j: int| 2 <= j < cmd@.len() ==> cmd@[j] == 0u8,
                    decreases 32 - cmd@.len(),
                {
                    cmd.push(0);
                }
            },
            StreamDeckType::Orig | StreamDeckType::Mini => {
                cmd.push(0x0b);
                cmd.push(0x63);
                while cmd.len() < 17
                    invariant
                        2 <= cmd@.len() <= 17,
                        cmd@[0] == 0x0bu8 && cmd@[1] == 0x63u8,
                        forall|j: int| 2 <= j < cmd@.len() ==> cmd@[j] == 0u8,
                    decreases 17 - cmd@.len(),
                {
                    cmd.push(0);
                }
            },
        }
        assert(cmd@ =~= self.spec_reset_packet());
        cmd
    }

    /// The packet that resets the key stream communication: one image-packet
    /// sized buffer whose first byte is 2 and whose remaining bytes are zero.
    pub open spec fn spec_reset_key_stream_packet(self) -> Seq<u8> {
        Seq::new(
            self.spec_image_package_size() as nat,
            |i: int|
                if i == 0 {
                    2u8
                } else {
                    0u8
                },
        )
    }

    /// The byte packet that resets the key stream communication.
    pub fn reset_key_stream_packet(&self) -> (r: Vec<u8>)
        ensures
            r@ == self.spec_reset_key_stream_packet(),
    {
        let size = self.image_package_size();
        let mut cmd: Vec<u8> = Vec::new();
        cmd.push(2);
        while cmd.len() < size
            invariant
                1 <= cmd@.len() <= size,
                cmd@[0] == 2u8,
                forall|j: int| 1 <= j < cmd@.len() ==> cmd@[j] == 0u8,
            decreases size - cmd@.len(),
        {
            cmd.push(0);
        }
        assert(cmd@ =~= self.spec_reset_key_stream_packet());
        cmd
    }

    /// The fixed size in bytes of one button image packet.
    pub open spec fn spec_image_package_size(self) -> int {
        if self.spec_is_large_packet_family() {
            1024
        } else {
            8191
        }
    }

    /// How big a button image packet is for this model, in bytes.
    pub fn image_package_size(&self) -> (r: usize)
        ensures
            r == self.spec_image_package_size(),
    {
        match *self {
            StreamDeckType::Xl => 1024,
            StreamDeckType::OrigV2 => 1024,
            StreamDeckType::Orig => 8191,
            StreamDeckType::Mini => 8191,
        }
    }

    /// The maximum number of encoded image bytes one packet can carry.
    pub open spec fn spec_max_payload_size(self) -> int {
        if self.spec_is_large_packet_family() {
            self.spec_image_package_size() - 8
        } else {
            7803
        }
    }

    /// Maximum payload per image packet for the model.
    pub fn max_payload_size(&self) -> (r: usize)
        ensures
            r == self.spec_max_payload_size(),
    {
        match *self {
            StreamDeckType::Xl => 1024 - 8,
            StreamDeckType::OrigV2 => 1024 - 8,
            StreamDeckType::Orig => 7803,
            StreamDeckType::Mini => 7803,
        }
    }

    /// The length of the image packet header for the model.
    pub open spec fn spec_image_package_header_len(self) -> int {
        if self.spec_is_large_packet_family() {
            8
        } else {
            16
        }
    }

    /// The header of one image packet, built from the count of encoded
    /// bytes still to send.
    ///
    /// For the large-buffer family: report id 2, command id 7, the button
    /// index, a final-page flag, then the payload length and the page
    /// number, each as two little-endian bytes.  The payload length is as
    /// much of `bytes_remaining` as one packet carries, and the flag is set
    /// exactly when that is all of `bytes_remaining` -- that is, on the
    /// final packet of an upload.
    ///
    /// For the small-buffer family: report id 2, command id 1, the page
    /// number plus one as a single byte, a zero, a flag that is set exactly
    /// when the raw page number equals 1 (a quirk of these devices, kept
    /// as observed), the button index plus one as a single byte, then ten
    /// zero bytes.
    pub open spec fn spec_image_package_header(
        self,
        bytes_remaining: int,
        btn_index: u8,
        page_number: int,
    ) -> Seq<u8> {
        if self.spec_is_large_packet_family() {
            let length = if self.spec_max_payload_size() < bytes_remaining {
                self.spec_max_payload_size()
            } else {
                bytes_remaining
            };
            Seq::new(
                8,
                |i: int|
                    if i == 0 {
                        0x02u8
                    } else if i == 1 {
                        0x07u8
                    } else if i == 2 {
                        btn_index
                    } else if i == 3 {
                        if length == bytes_remaining {
                            0x01u8
                        } else {
                            0x00u8
                        }
                    } else if i == 4 {
                        (length % 256) as u8
                    } else if i == 5 {
                        ((length / 256) % 256) as u8
                    } else if i == 6 {
                        (page_number % 256) as u8
                    } else {
                        ((page_number / 256) % 256) as u8
                    },
            )
        } else {
            Seq::new(
                16,
                |i: int|
                    if i == 0 {
                        0x02u8
                    } else if i == 1 {
                        0x01u8
                    } else if i == 2 {
                        (((page_number + 1) % 256)) as u8
                    } else if i == 4 {
                        if page_number == 1 {
                            0x01u8
                        } else {
                            0x00u8
                        }
                    } else if i == 5 {
                        (((btn_index + 1) % 256)) as u8
                    } else {
                        0u8
                    },
            )
        }
    }

    /// Build the header of one image packet.
    pub fn image_package_header(
        &self,
        bytes_remaining: usize,
        btn_index: u8,
        page_number: u16,
    ) -> (r: Vec<u8>)
        ensures
            r@ == self.spec_image_package_header(
                bytes_remaining as int,
                btn_index,
                page_number as int,
            ),
    {
        let mut v: Vec<u8> = Vec::new();
        match *self {
            StreamDeckType::Xl | StreamDeckType::OrigV2 => {
                let max_payload = self.max_payload_size();
                let length = if max_payload < bytes_remaining {
                    max_payload
                } else {
                    bytes_remaining
                };
                v.push(0x02);
                v.push(0x07);
                v.push(btn_index);
                v.push(
                    if length == bytes_remaining {
                        0x01
                    } else {
                        0x00
                    },
                );
                v.push((length % 256) as u8);
                v.push(((length / 256) % 256) as u8);
                v.push((page_number % 256) as u8);
                v.push(((page_number / 256) % 256) as u8);
            },
            StreamDeckType::Orig | StreamDeckType::Mini => {
                v.push(0x02);
                v.push(0x01);
                v.push(((page_number as u32 + 1) % 256) as u8);
                v.push(0x00);
                v.push(
                    if page_number == 1 {
                        0x01
                    } else {
                        0x00
                    },
                );
                v.push(((btn_index as u16 + 1) % 256) as u8);
                let mut k: usize = 0;
                while k < 10
                    invariant
                        k <= 10,
                        v@.len() == 6 + k,
                        v@[0] == 0x02u8 && v@[1] == 0x01u8,
                        v@[2] == (((page_number + 1) % 256)) as u8,
                        v@[3] == 0u8,
                        v@[4] == (if page_number == 1 {
                            0x01u8
                        } else {
                            0x00u8
                        }),
                        v@[5] == (((btn_index + 1) % 256)) as u8,
                        forall|j: int| 6 <= j < v@.len() ==> v@[j] == 0u8,
                    decreases 10 - k,
                {
                    v.push(0x00);
                    k += 1;
                }
            },
        }
        assert(v@ =~= self.spec_image_package_header(
            bytes_remaining as int,
            btn_index,
            page_number as int,
        ));
        v
    }

    /// The transform a button image needs before encoding.
    pub open spec fn spec_button_image_transformation(self) -> ImageTransformation {
        match self {
            StreamDeckType::Xl => ImageTransformation::Rotate180,
            StreamDeckType::OrigV2 => ImageTransformation::Rotate180,
            StreamDeckType::Orig => ImageTransformation::Rotate180,
            StreamDeckType::Mini => ImageTransformation::Rotate270,
        }
    }

    /// Transformation needed to display the image correctly.
    pub fn button_image_transformation(&self) -> (r: ImageTransformation)
        ensures
            r == self.spec_button_image_transformation(),
    {
        match *self {
            StreamDeckType::Xl => ImageTransformation::Rotate180,
            StreamDeckType::OrigV2 => ImageTransformation::Rotate180,
            StreamDeckType::Orig => ImageTransformation::Rotate180,
            StreamDeckType::Mini => ImageTransformation::Rotate270,
        }
    }

    /// The byte offset in an input report where per-button status begins.
    pub open spec fn spec_button_read_offset(self) -> int {
        if self.spec_is_large_packet_family() {
            4
        } else {
            1
        }
    }

    /// Byte offset in an input report at which the button status bytes start.
    pub fn button_read_offset(&self) -> (r: usize)
        ensures
            r == self.spec_button_read_offset(),
    {
        match *self {
            StreamDeckType::Xl => 4,
            StreamDeckType::OrigV2 => 4,
            StreamDeckType::Orig => 1,
            StreamDeckType::Mini => 1,
        }
    }
}

/// Law: in a large-buffer header, the payload length embedded in bytes 4 and
/// 5 and the page number embedded in bytes 6 and 7 decode back to the exact
/// values that went in.
pub proof fn lemma_header_fields_round_trip(
    t: StreamDeckType,
    bytes_remaining: int,
    btn_index: u8,
    page_number: int,
)
    requires
        t.spec_is_large_packet_family(),
        0 <= bytes_remaining,
        0 <= page_number < 0x10000,
    ensures
        ({
            let h = t.spec_image_package_header(bytes_remaining, btn_index, page_number);
            let length = if t.spec_max_payload_size() < bytes_remaining {
                t.spec_max_payload_size()
            } else {
                bytes_remaining
            };
            h[4] + 256 * h[5] == length && h[6] + 256 * h[7] == page_number
        }),
{
    let length = if t.spec_max_payload_size() < bytes_remaining {
        t.spec_max_payload_size()
    } else {
        bytes_remaining
    };
    assert(0 <= length < 0x10000);
    lemma_fundamental_div_mod(length, 256);
    lemma_small_mod((length / 256) as nat, 256);
    lemma_fundamental_div_mod(page_number, 256);
    lemma_small_mod((page_number / 256) as nat, 256);
}

/// The Stream Deck models among a list of (vendor id, product id) pairs:
/// each matching model together with the index of the pair it matched, in
/// increasing order of index, one entry per matching pair.
pub fn matching_device_types(ids: &Vec<(u16, u16)>) -> (r: Vec<(StreamDeckType, usize)>)
    ensures
        forall|k: int|
            0 <= k < r@.len() ==> (#[trigger] r@[k]).1 < ids@.len()
                && StreamDeckType::spec_from_ids(ids@[r@[k].1 as int].0, ids@[r@[k].1 as int].1)
                == Some(r@[k].0),
        forall|k: int| 0 <= k < r@.len() - 1 ==> (#[trigger] r@[k]).1 < r@[k + 1].1,
        forall|j: int|
            0 <= j < ids@.len() && (#[trigger] StreamDeckType::spec_from_ids(
                ids@[j].0,
                ids@[j].1,
            )) is Some ==> exists|k: int| 0 <= k < r@.len() && (#[trigger] r@[k]).1 == j,
{
    let mut result: Vec<(StreamDeckType, usize)> = Vec::new();
    let mut idx: usize = 0;
    while idx < ids.len()
        invariant
            idx <= ids@.len(),
            forall|k: int|
                0 <= k < result@.len() ==> (#[trigger] result@[k]).1 < idx
                    && StreamDeckType::spec_from_ids(
                    ids@[result@[k].1 as int].0,
                    ids@[result@[k].1 as int].1,
                ) == Some(result@[k].0),
            forall|k: int|
                0 <= k < result@.len() - 1 ==> (#[trigger] result@[k]).1 < result@[k + 1].1,
            forall|j: int|
                0 <= j < idx && (#[trigger] StreamDeckType::spec_from_ids(
                    ids@[j].0,
                    ids@[j].1,
                )) is Some ==> exists|k: int|
                    0 <= k < result@.len() && (#[trigger] result@[k]).1 == j,
        decreases ids@.len() - idx,
    {
        let (vendor_id, product_id) = ids[idx];
        let ghost old_result = result@;
        if let Some(t) = StreamDeckType::from_vendor_and_product_id(vendor_id, product_id) {
            result.push((t, idx));
            proof {
                assert(result@[result@.len() - 1].1 == idx);
                assert(forall|k: int|
                    0 <= k < old_result.len() ==> result@[k] == old_result[k]);
            }
        }
        proof {
            assert forall|j: int|
                0 <= j < idx + 1 && (#[trigger] StreamDeckType::spec_from_ids(
                    ids@[j].0,
                    ids@[j].1,
                )) is Some implies exists|k: int|
                0 <= k < result@.len() && (#[trigger] result@[k]).1 == j by {
                if j == idx {
                    assert(result@[result@.len() - 1].1 == j);
                } else {
                    let k = choose|k: int|
                        0 <= k < old_result.len() && (#[trigger] old_result[k]).1 == j;
                    assert(result@[k].1 == j);
                }
            }
        }
        idx += 1;
    }
    result
}

} // verus!
