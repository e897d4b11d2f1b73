//! Protocol layer for Elgato Stream Deck USB devices.
//!
//! The crate turns high-level operations (set brightness, reset, upload a
//! per-button image, observe button presses) into the exact byte packets each
//! device model expects, and turns raw input reports into edge-triggered
//! button events.  Raw HID transport is left to the caller.

mod buttons;
mod error;
mod imaging;
mod type_info;

pub use buttons::ButtonEvent;
pub use buttons::ButtonState;
pub use buttons::ButtonStateTracker;
pub use buttons::spec_button_events;
pub use buttons::spec_button_events_from;
pub use buttons::spec_states_of_raw;
pub use error::StreamDeckError;
pub use error::check_write_length;
pub use imaging::MAX_IMAGE_DIMENSION;
pub use imaging::RgbImage;
pub use imaging::bmp_bytes;
pub use imaging::encoded_image_packages;
pub use imaging::image_packages;
pub use imaging::jpeg_bytes;
pub use imaging::lemma_final_flag_marks_last_package;
pub use imaging::lemma_first_image_package_payload;
pub use imaging::lemma_image_packages_count;
pub use imaging::rotate180;
pub use imaging::rotate270;
pub use imaging::spec_encoded_image;
pub use imaging::spec_format_magic;
pub use imaging::spec_image_package;
pub use imaging::spec_image_packages;
pub use imaging::spec_image_packages_from;
pub use imaging::spec_payload_size;
pub use imaging::spec_rotate180;
pub use imaging::spec_rotate180_src;
pub use imaging::spec_rotate270;
pub use imaging::spec_rotate270_src;
pub use type_info::ImageTransformation;
pub use type_info::StreamDeckImageFormat;
pub use type_info::StreamDeckType;
pub use type_info::lemma_header_fields_round_trip;
pub use type_info::matching_device_types;
