use vstd::prelude::*;

verus! {

pub const ACTIVATE_CLSID_STRING: &'static str = "{44E66AC5-04BE-4E2F-9D15-FEA1430DF6B5}";
pub const FRAME_BROKER_CLSID_STRING: &'static str = "{8EC7C5B8-2C80-42F3-950D-70D4A8FB564E}";

pub const FRIENDLY_NAME: &'static str = "Rust StaticCam Prototype";
pub const FRAME_BROKER_NAME: &'static str = "Rust VCam Frame Broker";
pub const STREAM_ID: u32 = 0;

pub const DEFAULT_FRAME_WIDTH: u32 = 1920;
pub const DEFAULT_FRAME_HEIGHT: u32 = 1080;
pub const DEFAULT_FRAME_RATE_NUMERATOR: u32 = 60;
pub const DEFAULT_FRAME_RATE_DENOMINATOR: u32 = 1;

pub const BGRA_BYTES_PER_PIXEL: usize = 4;
pub const VCAM_FEED_INPUT_FORMAT_BGRA8: u32 = 1;
pub const VCAM_FEED_SLOT_COUNT: u32 = 3;
pub const VCAM_FEED_MAGIC: u32 = 0x5643_414d;
pub const VCAM_FEED_VERSION: u32 = 1;
pub const VCAM_INVALID_SLOT_INDEX: u32 = 0xffff_ffff;

} // verus!
