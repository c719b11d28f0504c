//! The ZK9500 scanner protocol: identifiers, command codes, the frames that
//! the sensor sends, and the decisions taken while capturing one.

use vstd::prelude::*;
use crate::text::{decimal, push_decimal, string_from_chars};

verus! {

// --- USB identifiers ---

/// USB vendor ID of ZKTeco devices.
pub const ZKTECO_VID: u16 = 0x1B55;

/// USB product ID of the ZK9500.
pub const ZK9500_PID: u16 = 0x0124;

// --- Image constants ---

/// Native image width of the ZK9500.
pub const DEFAULT_IMAGE_WIDTH: u32 = 300;

/// Native image height of the ZK9500.
pub const DEFAULT_IMAGE_HEIGHT: u32 = 375;

/// Sensor resolution in dots per inch.
pub const DEFAULT_DPI: u32 = 500;

/// Bytes of a native frame (300 x 375).
pub const IMAGE_SIZE: usize = 112500;

// --- Endpoints ---

/// USB interface number used by the scanner.
pub const USB_INTERFACE: u8 = 0;

/// Interrupt IN endpoint: finger detection status.
pub const INTERRUPT_IN_ENDPOINT: u8 = 0x81;

/// Bulk IN endpoint: image data.
pub const BULK_IN_ENDPOINT: u8 = 0x82;

/// Bulk OUT endpoint (reserved).
pub const BULK_OUT_ENDPOINT: u8 = 0x03;

/// Largest bulk transfer chunk.
pub const BULK_CHUNK_SIZE: usize = 16384;

/// Largest bulk packet (USB 2.0 high speed).
pub const BULK_MAX_PACKET: usize = 512;

// --- Control transfer request types ---

/// Vendor-type OUT control transfer.
pub const CTRL_OUT: u8 = 0x40;

/// Vendor-type IN control transfer.
pub const CTRL_IN: u8 = 0xC0;

// --- Command codes ---

pub const CMD_INIT: u8 = 0xE0;
pub const CMD_HANDSHAKE: u8 = 0x80;
pub const CMD_SET_GPIO: u8 = 0xE1;
pub const CMD_GET_GPIO: u8 = 0xE2;
pub const CMD_SET_CMOS: u8 = 0xE3;
pub const CMD_GET_CMOS: u8 = 0xE4;
pub const CMD_GET_IMAGE: u8 = 0xE5;
pub const CMD_SET_NVM: u8 = 0xE6;
pub const CMD_GET_NVM: u8 = 0xE7;
pub const CMD_SET_IIC: u8 = 0xE8;
pub const CMD_GET_IIC: u8 = 0xE9;
pub const CMD_DET_IMAGE: u8 = 0xEA;
pub const CMD_CLR_IMAGE: u8 = 0xEB;
pub const CMD_CHECK_LIC: u8 = 0xF3;

/// Request code of a camera register write.
pub const CMD_SET_CAMERA: u8 = 0xA5;

// --- GPIO registers ---

pub const GPIO_GET_VERSION: u16 = 0x55;
pub const GPIO_WORK_MODE: u16 = 0x30;
pub const GPIO_OUTPUT_MODE: u16 = 0x31;
pub const GPIO_LED: u16 = 0x70;
pub const GPIO_ANTI_FAKE: u16 = 0x32;
pub const GPIO_POWER_MODE: u16 = 0x53;
pub const GPIO_IMAGE_AREA_6: u16 = 0x06;
pub const GPIO_IMAGE_AREA_7: u16 = 0x07;

// --- Work modes ---

pub const MODE_IDLE: u16 = 0;
pub const MODE_MAIN: u16 = 1;
pub const MODE_FAKE: u16 = 2;
pub const MODE_DETECT: u16 = 3;

// --- LED register values ---

pub const LED_ALL_OFF: u16 = 0;
pub const LED_MAIN_ON: u16 = 15;
pub const LED_FAKE_ON: u16 = 16;

// --- CMOS sensor ---

pub const CMOS_WIDTH: u16 = 1600;
pub const CMOS_HEIGHT: u16 = 1200;

// --- Timing ---

/// Control transfer timeout, in milliseconds.
pub const CTRL_TIMEOUT_MS: u64 = 500;

/// Bulk read timeout during capture, in milliseconds.
pub const BULK_TIMEOUT_MS: u64 = 1000;

/// Interrupt read timeout, in milliseconds.
pub const INTERRUPT_TIMEOUT_MS: u64 = 100;

/// Settling delay after reset, in milliseconds.
pub const INIT_DELAY_MS: u64 = 100;

/// Polls of the capture status before giving up (3 s at 100 ms a poll, as
/// the timeout error reports it).
pub const MAX_CAPTURE_ATTEMPTS: u32 = 30;

/// A USB error as reported by `rusb`, carried through unchanged.
#[verifier::external_type_specification]
#[verifier::external_body]
pub struct ExTransferError(rusb::Error);

/// Errors of the scanner layer.
#[derive(Debug)]
pub enum UsbError {
    DeviceNotFound { vid: u16, pid: u16 },
    AccessDenied,
    Io(rusb::Error),
    CaptureTimeout(u64),
    InvalidImageSize { expected: usize, actual: usize },
    InvalidDimensions { width: u32, height: u32 },
    DeviceBusy,
    Firmware(String),
    ControlFailed { command: u8, reason: String },
    NotInitialized,
}

// --- Raw frames ---

/// A grayscale frame as the scanner sends it, row by row.
#[derive(Debug, Clone)]
pub struct RawImage {
    pub width: u32,
    pub height: u32,
    pub dpi: u32,
    pub data: Vec<u8>,
}

impl RawImage {
    /// A frame of the given size; fails when the data is not exactly
    /// `width * height` bytes.
    pub fn new(width: u32, height: u32, dpi: u32, data: Vec<u8>) -> (r: Result<RawImage, UsbError>)
        requires
            width * height <= u32::MAX,
        ensures
            match r {
                Ok(img) => data@.len() == width * height && img.width == width && img.height
                    == height && img.dpi == dpi && img.data@ == data@,
                Err(e) => data@.len() != width * height && e == (UsbError::InvalidDimensions {
                    width,
                    height,
                }),
            },
    {
        let expected = (width * height) as usize;
        if data.len() != expected {
            return Err(UsbError::InvalidDimensions { width, height });
        }
        Ok(RawImage { width, height, dpi, data })
    }

    /// A native 300 x 375 frame at 500 dpi.
    pub fn default_size(data: Vec<u8>) -> (r: Result<RawImage, UsbError>)
        ensures
            match r {
                Ok(img) => data@.len() == IMAGE_SIZE && img.width == DEFAULT_IMAGE_WIDTH
                    && img.height == DEFAULT_IMAGE_HEIGHT && img.dpi == DEFAULT_DPI && img.data@
                    == data@,
                Err(e) => data@.len() != IMAGE_SIZE && e == (UsbError::InvalidDimensions {
                    width: DEFAULT_IMAGE_WIDTH,
                    height: DEFAULT_IMAGE_HEIGHT,
                }),
            },
    {
        RawImage::new(DEFAULT_IMAGE_WIDTH, DEFAULT_IMAGE_HEIGHT, DEFAULT_DPI, data)
    }

    /// The byte at index `y * width + x`.
    pub fn pixel(&self, x: u32, y: u32) -> (r: u8)
        requires
            y * self.width + x < self.data@.len(),
            y * self.width + x <= u32::MAX,
        ensures
            r == self.data@[y * self.width + x],
    {
        self.data[(y * self.width + x) as usize]
    }

    /// The frame bytes.
    pub fn data(&self) -> (r: &[u8])
        ensures
            r@ == self.data@,
    {
        self.data.as_slice()
    }
}

/// The LEDs of the ZK9500.
#[derive(Debug, Clone, Copy, PartialEq, Eq, Structural)]
pub enum LedColor {
    Green,
    Red,
    White,
}

/// The LED register value: green and white light the main LED, red the
/// fake-detection LED; off clears both.
pub open spec fn led_value_of(color: LedColor, on: bool) -> u16 {
    if !on {
        LED_ALL_OFF
    } else {
        match color {
            LedColor::Green => LED_MAIN_ON,
            LedColor::Red => LED_FAKE_ON,
            LedColor::White => LED_MAIN_ON,
        }
    }
}

/// The value written to the LED register for `color` and `on`.
pub fn led_register_value(color: LedColor, on: bool) -> (r: u16)
    ensures
        r == led_value_of(color, on),
{
    if on {
        match color {
            LedColor::Green => LED_MAIN_ON,
            LedColor::Red => LED_FAKE_ON,
            LedColor::White => LED_MAIN_ON,
        }
    } else {
        LED_ALL_OFF
    }
}

/// A device found on the USB bus.
#[derive(Debug, Clone)]
pub struct DeviceInfo {
    pub vid: u16,
    pub pid: u16,
    pub manufacturer: String,
    pub product: String,
    pub serial: Option<String>,
    pub bus_number: u8,
    pub address: u8,
}

/// The firmware version that the device reports.
#[derive(Debug, Clone, Copy, PartialEq, Eq, Structural)]
pub struct FirmwareVersion {
    pub major: u8,
    pub minor: u8,
}

impl FirmwareVersion {
    /// The version as `major.minor`.
    pub fn to_string(&self) -> (s: String)
        ensures
            s@ == decimal(self.major as nat) + seq!['.'] + decimal(self.minor as nat),
    {
        let mut out: Vec<char> = Vec::new();
        push_decimal(&mut out, self.major as u64);
        out.push('.');
        push_decimal(&mut out, self.minor as u64);
        string_from_chars(out.as_slice())
    }
}

/// The version from the reply to `GET_GPIO(GET_VERSION)`: the first two
/// bytes, or `0.0` when fewer than two came back.
pub fn firmware_from_reply(read: usize, buf: &[u8]) -> (r: FirmwareVersion)
    requires
        buf@.len() >= 2,
    ensures
        read >= 2 ==> r == (FirmwareVersion { major: buf@[0], minor: buf@[1] }),
        read < 2 ==> r == (FirmwareVersion { major: 0, minor: 0 }),
{
    if read >= 2 {
        FirmwareVersion { major: buf[0], minor: buf[1] }
    } else {
        FirmwareVersion { major: 0, minor: 0 }
    }
}

/// Whether the handshake reply accepts the host: more than four bytes whose
/// first four (a little-endian status word) are zero, or no bytes at all;
/// one to four bytes reject it.
pub fn handshake_accepted(read: usize, buf: &[u8]) -> (r: bool)
    requires
        buf@.len() >= 4,
    ensures
        read > 4 ==> r == (buf@[0] == 0 && buf@[1] == 0 && buf@[2] == 0 && buf@[3] == 0),
        0 < read <= 4 ==> !r,
        read == 0 ==> r,
{
    if read > 4 {
        buf[0] == 0 && buf[1] == 0 && buf[2] == 0 && buf[3] == 0
    } else if read > 0 {
        false
    } else {
        true
    }
}

/// Whether a detect-image status reply says that a frame is ready (the
/// finger is on the glass).
pub fn image_ready(read: usize, status: u8) -> (r: bool)
    ensures
        r == (read >= 1 && status == 1),
{
    read >= 1 && status == 1
}


// --- Frame assembly ---

/// Bytes of a frame of the 288-column sensor revision.
pub const NARROW_FRAME_SIZE: usize = 108000;

/// Bytes after which a bulk stream is complete whatever the packet sizes.
pub const FULL_STREAM_SIZE: usize = 114688;

/// Bytes after which a stream that broke off still holds a usable frame.
pub const MIN_STREAM_SIZE: usize = 100000;

/// The frame size that `len` received bytes give: a 300 x 375 frame from
/// 112500 bytes on, a 288 x 375 frame from 108000 on, else 300 columns and
/// as many whole rows as arrived, provided there are at least 100 rows.
pub open spec fn frame_size(len: nat) -> Option<(u32, u32)> {
    if len >= 112500 {
        Some((300, 375))
    } else if len >= 108000 {
        Some((288, 375))
    } else if len > 0 && len / 300 >= 100 {
        Some((300, (len / 300) as u32))
    } else {
        None
    }
}

/// The frame in the bytes received from the bulk endpoint: its first
/// `width * height` bytes, at 500 dpi (see `frame_size`).
pub fn frame_from_bytes(raw: Vec<u8>) -> (r: Option<RawImage>)
    ensures
        match frame_size(raw@.len()) {
            Some((w, h)) => r matches Some(img) && img.width == w && img.height == h && img.dpi
                == DEFAULT_DPI && img.data@ == raw@.take(w * h),
            None => r is None,
        },
{
    let mut raw = raw;
    let ghost old_raw = raw@;
    let total = raw.len();
    let (w, h): (u32, u32) = if total >= 112500 {
        (300, 375)
    } else if total >= 108000 {
        (288, 375)
    } else if total > 0 && total / 300 >= 100 {
        (300, (total / 300) as u32)
    } else {
        return None;
    };
    assert(w * h <= total) by (nonlinear_arith)
        requires
            (w == 300 && h == 375 && total >= 112500) || (w == 288 && h == 375 && total >= 108000)
                || (w == 300 && h == total / 300),
    ;
    raw.truncate((w * h) as usize);
    assert(raw@ =~= old_raw.take(w * h));
    match RawImage::new(w, h, DEFAULT_DPI, raw) {
        Ok(img) => Some(img),
        Err(_) => None,
    }
}

/// What `frame_from_bytes` gives for the bytes `raw`.
pub open spec fn frame_result(raw: Seq<u8>, r: Option<RawImage>) -> bool {
    match frame_size(raw.len()) {
        Some((w, h)) => r matches Some(img) && img.width == w && img.height == h && img.dpi
            == DEFAULT_DPI && img.data@ == raw.take(w * h),
        None => r is None,
    }
}

/// A frame is cut from the start of the stream, never longer than what
/// arrived, and its bytes fill its rows exactly. A stream of at least
/// `IMAGE_SIZE` bytes holds a whole native 300 x 375 frame and gives exactly
/// its first `IMAGE_SIZE` bytes; a stream of at least 108000 bytes but less
/// than that gives the narrow 288 x 375 frame; a shorter stream gives rows of
/// 300 pixels, and none when fewer than 100 rows arrived.
pub proof fn law_frame_geometry(raw: Seq<u8>, r: Option<RawImage>)
    requires
        frame_result(raw, r),
    ensures
        r matches Some(img) ==> img.data@.len() == img.width * img.height && img.data@.len()
            <= raw.len() && img.data@ == raw.take(img.data@.len() as int) && img.dpi == 500,
        raw.len() >= IMAGE_SIZE ==> (r matches Some(img) && img.width == 300 && img.height == 375
            && img.data@ == raw.take(112500)),
        NARROW_FRAME_SIZE <= raw.len() < IMAGE_SIZE ==> (r matches Some(img) && img.width == 288
            && img.height == 375),
        raw.len() < NARROW_FRAME_SIZE ==> (r matches Some(img) ==> img.width == 300 && img.height
            >= 100 && img.height == raw.len() / 300),
        raw.len() < 30000 ==> r is None,
{
    if let Some(img) = r {
        let w = img.width as int;
        let h = img.height as int;
        if raw.len() < 108000 {
            assert(h * 300 <= raw.len()) by (nonlinear_arith)
                requires
                    h == raw.len() / 300,
            ;
            assert(w * h == 300 * h);
        }
    }
}

/// What one read on the bulk image endpoint reported.
pub enum BulkRead {
    /// Some bytes arrived (possibly none).
    Bytes(Vec<u8>),
    Timeout,
    Overflow,
    Pipe,
    Io,
    /// Any other transfer error.
    Other,
}

/// What to do after a bulk read.
#[derive(Debug, Clone, Copy, PartialEq, Eq, Structural)]
pub enum BulkStep {
    /// Read again, after clearing a halt and sleeping as given.
    Continue { clear_halt: bool, sleep_ms: u64 },
    /// The stream is over (clear a halt first when asked).
    Done { clear_halt: bool },
    /// The transfer failed before a usable frame arrived.
    Fail,
}

/// The step after a read, given the byte count before it (`len`) and after
/// it (`new_len`).
pub open spec fn bulk_step(read: BulkRead, len: nat, new_len: nat) -> BulkStep {
    match read {
        BulkRead::Bytes(b) => if b@.len() > 0 && ((b@.len() < 16384 && new_len >= 108000)
            || new_len >= 114688) {
            BulkStep::Done { clear_halt: false }
        } else {
            BulkStep::Continue { clear_halt: false, sleep_ms: 0 }
        },
        BulkRead::Timeout => if len > 0 {
            BulkStep::Done { clear_halt: false }
        } else {
            BulkStep::Continue { clear_halt: false, sleep_ms: 0 }
        },
        BulkRead::Overflow | BulkRead::Pipe => if len >= 100000 {
            BulkStep::Done { clear_halt: true }
        } else {
            BulkStep::Continue { clear_halt: true, sleep_ms: 0 }
        },
        BulkRead::Io => if len >= 100000 {
            BulkStep::Done { clear_halt: true }
        } else {
            BulkStep::Continue { clear_halt: true, sleep_ms: if len == 0 { 50 } else { 0 } }
        },
        BulkRead::Other => if len >= 100000 {
            BulkStep::Done { clear_halt: true }
        } else {
            BulkStep::Fail
        },
    }
}

/// The bytes of one frame as they arrive from the bulk endpoint.
pub struct FrameAssembler {
    pub bytes: Vec<u8>,
}

impl FrameAssembler {
    pub fn new() -> (r: FrameAssembler)
        ensures
            r.bytes@ == Seq::<u8>::empty(),
    {
        FrameAssembler { bytes: Vec::new() }
    }

    /// More bytes are wanted: fewer than a native frame arrived.
    pub fn wants_more(&self) -> (r: bool)
        ensures
            r == (self.bytes@.len() < 112500),
    {
        self.bytes.len() < 112500
    }

    /// Takes in one read result: appends the bytes that came and says
    /// whether to read on (see `bulk_step`).
    pub fn on_read(&mut self, read: BulkRead) -> (r: BulkStep)
        requires
            read matches BulkRead::Bytes(b) ==> old(self).bytes@.len() + b@.len() <= usize::MAX,
        ensures
            final(self).bytes@ == match read {
                BulkRead::Bytes(b) => old(self).bytes@ + b@,
                _ => old(self).bytes@,
            },
            r == bulk_step(read, old(self).bytes@.len(), final(self).bytes@.len()),
    {
        let len = self.bytes.len();
        match read {
            BulkRead::Bytes(b) => {
                let n = b.len();
                self.bytes.extend_from_slice(b.as_slice());
                let total = self.bytes.len();
                if n > 0 && ((n < 16384 && total >= 108000) || total >= 114688) {
                    BulkStep::Done { clear_halt: false }
                } else {
                    BulkStep::Continue { clear_halt: false, sleep_ms: 0 }
                }
            },
            BulkRead::Timeout => {
                if len > 0 {
                    BulkStep::Done { clear_halt: false }
                } else {
                    BulkStep::Continue { clear_halt: false, sleep_ms: 0 }
                }
            },
            BulkRead::Overflow | BulkRead::Pipe => {
                if len >= 100000 {
                    BulkStep::Done { clear_halt: true }
                } else {
                    BulkStep::Continue { clear_halt: true, sleep_ms: 0 }
                }
            },
            BulkRead::Io => {
                if len >= 100000 {
                    BulkStep::Done { clear_halt: true }
                } else {
                    BulkStep::Continue { clear_halt: true, sleep_ms: if len == 0 { 50 } else { 0 } }
                }
            },
            BulkRead::Other => {
                if len >= 100000 {
                    BulkStep::Done { clear_halt: true }
                } else {
                    BulkStep::Fail
                }
            },
        }
    }

    /// The frame in the bytes received (see `frame_from_bytes`).
    pub fn finish(self) -> (r: Option<RawImage>)
        ensures
            match frame_size(self.bytes@.len()) {
                Some((w, h)) => r matches Some(img) && img.width == w && img.height == h
                    && img.dpi == DEFAULT_DPI && img.data@ == self.bytes@.take(w * h),
                None => r is None,
            },
    {
        frame_from_bytes(self.bytes)
    }
}

// --- Capture polling ---

/// What a poll of the capture status gave.
#[derive(Debug, Clone, Copy, PartialEq, Eq, Structural)]
pub enum PollEvent {
    /// The status transfer itself failed.
    StatusFailed,
    /// No frame is ready yet.
    NotReady,
    /// A frame was read but too few bytes came for an image.
    NoFrame,
}

/// What to do after a poll that gave no image.
#[derive(Debug)]
pub enum PollAction {
    /// Poll again: clear the device's image buffer first when asked, then
    /// sleep as given.
    Poll { clear_image: bool, sleep_ms: u64 },
    /// Give up with this error (after clearing the image buffer when asked).
    Fail { clear_image: bool, error: UsbError },
}

/// The polls of one capture and their outcome.
pub struct CaptureSession {
    pub attempts: u32,
}

impl CaptureSession {
    /// Starts a capture; an uninitialised device cannot capture.
    pub fn start(initialized: bool) -> (r: Result<CaptureSession, UsbError>)
        ensures
            initialized ==> (r matches Ok(s) && s.attempts == 0),
            !initialized ==> r matches Err(UsbError::NotInitialized),
    {
        if !initialized {
            return Err(UsbError::NotInitialized);
        }
        Ok(CaptureSession { attempts: 0 })
    }

    /// Counts a poll that gave no image; every poll counts, so a capture
    /// ends after `MAX_CAPTURE_ATTEMPTS` polls whatever they report. A
    /// failed status transfer is retried after 50 ms; a frame not ready yet
    /// is polled again after 100 ms; a short frame clears the image buffer
    /// and is polled again at once. The count reaching
    /// `MAX_CAPTURE_ATTEMPTS` ends the capture with a timeout of 100 ms per
    /// attempt.
    pub fn on_poll(&mut self, event: PollEvent) -> (r: PollAction)
        requires
            old(self).attempts < MAX_CAPTURE_ATTEMPTS,
        ensures
            final(self).attempts == old(self).attempts + 1,
            final(self).attempts >= MAX_CAPTURE_ATTEMPTS ==> (r matches PollAction::Fail {
                clear_image: c,
                error: UsbError::CaptureTimeout(ms),
            } && c == (event == PollEvent::NoFrame) && ms == 3000),
            final(self).attempts < MAX_CAPTURE_ATTEMPTS ==> (r matches PollAction::Poll {
                clear_image: c,
                sleep_ms: ms,
            } && c == (event == PollEvent::NoFrame) && ms == (match event {
                PollEvent::StatusFailed => 50u64,
                PollEvent::NotReady => 100u64,
                PollEvent::NoFrame => 0u64,
            })),
    {
        self.attempts = self.attempts + 1;
        let clear_image = match event {
            PollEvent::NoFrame => true,
            _ => false,
        };
        if self.attempts >= MAX_CAPTURE_ATTEMPTS {
            return PollAction::Fail {
                clear_image,
                error: UsbError::CaptureTimeout((MAX_CAPTURE_ATTEMPTS as u64) * 100),
            };
        }
        let sleep_ms: u64 = match event {
            PollEvent::StatusFailed => 50,
            PollEvent::NotReady => 100,
            PollEvent::NoFrame => 0,
        };
        PollAction::Poll { clear_image, sleep_ms }
    }
}


// --- Hardware configuration from the device's memory ---

/// One vendor control OUT transfer: request, value and index.
#[derive(Debug, Clone, Copy, PartialEq, Eq, Structural)]
pub struct ControlWrite {
    pub request: u8,
    pub value: u16,
    pub index: u16,
}

/// `s` when `c` holds, else nothing.
pub open spec fn writes_if(c: bool, s: Seq<ControlWrite>) -> Seq<ControlWrite> {
    if c {
        s
    } else {
        Seq::empty()
    }
}

/// Lights LED channel `i` at brightness `b` (GPIO register `i`, value
/// `b << 8 | 1`), when `b` is not zero.
pub open spec fn led_writes(led: Seq<u8>, i: int) -> Seq<ControlWrite> {
    writes_if(
        led[i] > 0,
        seq![ControlWrite { request: CMD_SET_GPIO, value: (led[i] * 256 + 1) as u16, index: i as u16 }],
    )
}

/// Writes the low byte `lo` of a colour gain (whose high byte is `hi`) to
/// camera registers `r1` and `r2`, when the gain is not zero.
pub open spec fn gain_writes(lo: u8, hi: u8, r1: u16, r2: u16) -> Seq<ControlWrite> {
    writes_if(
        lo != 0 || hi != 0,
        seq![
            ControlWrite { request: CMD_SET_CAMERA, value: lo as u16, index: r1 },
            ControlWrite { request: CMD_SET_CAMERA, value: lo as u16, index: r2 },
        ],
    )
}

/// The transfers that configure the sensor from its memory: the six LED
/// brightness bytes (memory 112..), then the red, green, green and blue
/// gains (little-endian words at memory 50.. ; camera registers -91/-90,
/// -93/-92, -87/-86, -89/-88 as 16-bit values), then the image offset word
/// (memory 48) to camera registers 3 (high byte) and 4 (low byte).
pub open spec fn hardware_writes(led: Seq<u8>, exp: Seq<u8>) -> Seq<ControlWrite> {
    led_writes(led, 0) + led_writes(led, 1) + led_writes(led, 2) + led_writes(led, 3) + led_writes(
        led,
        4,
    ) + led_writes(led, 5) + gain_writes(exp[2], exp[3], 65445, 65446) + gain_writes(
        exp[4],
        exp[5],
        65443,
        65444,
    ) + gain_writes(exp[6], exp[7], 65449, 65450) + gain_writes(exp[8], exp[9], 65447, 65448)
        + writes_if(
        exp[0] != 0 || exp[1] != 0,
        seq![
            ControlWrite { request: CMD_SET_CAMERA, value: exp[1] as u16, index: 3 },
            ControlWrite { request: CMD_SET_CAMERA, value: exp[0] as u16, index: 4 },
        ],
    )
}

fn push_gain(out: &mut Vec<ControlWrite>, lo: u8, hi: u8, r1: u16, r2: u16)
    ensures
        final(out)@ == old(out)@ + gain_writes(lo, hi, r1, r2),
{
    let word: u16 = (hi as u16) * 256 + (lo as u16);
    if word > 0 {
        let v: u16 = word % 256;
        out.push(ControlWrite { request: CMD_SET_CAMERA, value: v, index: r1 });
        out.push(ControlWrite { request: CMD_SET_CAMERA, value: v, index: r2 });
        assert(final(out)@ =~= old(out)@ + gain_writes(lo, hi, r1, r2));
    } else {
        assert(final(out)@ =~= old(out)@ + gain_writes(lo, hi, r1, r2));
    }
}

/// The configuration transfers for the LED bytes (`led`, read from memory
/// 112..122) and the exposure bytes (`exp`, read from memory 48..60).
pub fn hardware_config_writes(led: &[u8], exp: &[u8]) -> (r: Vec<ControlWrite>)
    requires
        led@.len() == 10,
        exp@.len() == 12,
    ensures
        r@ == hardware_writes(led@, exp@),
{
    let mut out: Vec<ControlWrite> = Vec::new();
    let mut i: usize = 0;
    while i < 6
        invariant
            led@.len() == 10,
            i <= 6,
            out@ == if i == 0 {
                Seq::<ControlWrite>::empty()
            } else if i == 1 {
                led_writes(led@, 0)
            } else if i == 2 {
                led_writes(led@, 0) + led_writes(led@, 1)
            } else if i == 3 {
                led_writes(led@, 0) + led_writes(led@, 1) + led_writes(led@, 2)
            } else if i == 4 {
                led_writes(led@, 0) + led_writes(led@, 1) + led_writes(led@, 2) + led_writes(led@, 3)
            } else if i == 5 {
                led_writes(led@, 0) + led_writes(led@, 1) + led_writes(led@, 2) + led_writes(led@, 3)
                    + led_writes(led@, 4)
            } else {
                led_writes(led@, 0) + led_writes(led@, 1) + led_writes(led@, 2) + led_writes(led@, 3)
                    + led_writes(led@, 4) + led_writes(led@, 5)
            },
        decreases 6 - i,
    {
        let ghost before = out@;
        let b = led[i];
        if b > 0 {
            assert(((b as u16) << 8) == b * 256) by (bit_vector);
            let v: u16 = ((b as u16) << 8) + 1;
            out.push(ControlWrite { request: CMD_SET_GPIO, value: v, index: i as u16 });
        }
        assert(out@ =~= before + led_writes(led@, i as int));
        i = i + 1;
    }
    push_gain(&mut out, exp[2], exp[3], 65445, 65446);
    push_gain(&mut out, exp[4], exp[5], 65443, 65444);
    push_gain(&mut out, exp[6], exp[7], 65449, 65450);
    push_gain(&mut out, exp[8], exp[9], 65447, 65448);
    let ghost before = out@;
    let exposure: u16 = (exp[1] as u16) * 256 + (exp[0] as u16);
    if exposure > 0 {
        out.push(ControlWrite { request: CMD_SET_CAMERA, value: exposure / 256, index: 3 });
        out.push(ControlWrite { request: CMD_SET_CAMERA, value: exposure % 256, index: 4 });
    }
    assert(out@ =~= hardware_writes(led@, exp@));
    out
}

} // verus!
