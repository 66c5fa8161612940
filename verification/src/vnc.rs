//! The client's side of the remote framebuffer protocol, apart from the socket: what to send,
//! how many bytes to read next, and what they mean.
use crate::apple_dh::{append, vnc_apple_dh_response_with_secret};
use crate::number::{decimal, decimal_signed};
use crate::result::FailureReason;
use crate::session::SessionError;
use crate::text::{cat2, cat4, cat5, join, lossy, owned};
use crate::time::Duration;
use crate::{apple_dh, number, text, time};
use vstd::prelude::*;

verus! {

// ---------------------------------------------------------------------------
// Numbers on the wire

/// The number that two bytes stand for, the more significant first.
pub open spec fn be16(bytes: Seq<u8>, at: int) -> nat {
    (bytes[at] * 256 + bytes[at + 1]) as nat
}

/// The number that four bytes stand for, the most significant first.
pub open spec fn be32(bytes: Seq<u8>, at: int) -> nat {
    be16(bytes, at) * 65536 + be16(bytes, at + 2)
}

/// The number that four bytes stand for in two's complement.
pub open spec fn be_signed32(bytes: Seq<u8>, at: int) -> int {
    if be32(bytes, at) < 0x8000_0000 {
        be32(bytes, at) as int
    } else {
        be32(bytes, at) - 0x1_0000_0000
    }
}

/// The two bytes of a number, the more significant first.
pub open spec fn wire16(value: u16) -> Seq<u8> {
    seq![(value / 256) as u8, (value % 256) as u8]
}

fn read16(bytes: &[u8], at: usize) -> (out: u16)
    requires
        at + 2 <= bytes.len(),
    ensures
        out == be16(bytes@, at as int),
{
    bytes[at] as u16 * 256 + bytes[at + 1] as u16
}

fn read32(bytes: &[u8], at: usize) -> (out: u32)
    requires
        at + 4 <= bytes.len(),
    ensures
        out == be32(bytes@, at as int),
{
    read16(bytes, at) as u32 * 65536 + read16(bytes, at + 2) as u32
}

fn read_signed32(bytes: &[u8], at: usize) -> (out: i32)
    requires
        at + 4 <= bytes.len(),
    ensures
        out == be_signed32(bytes@, at as int),
{
    let value: u32 = read32(bytes, at);
    if value < 0x8000_0000 {
        value as i32
    } else {
        -((0xffff_ffff - value) as i32) - 1
    }
}

// ---------------------------------------------------------------------------
// Pixels

/// How a server writes a pixel.
#[derive(Debug, Clone, Copy, PartialEq, Eq, Structural)]
pub struct VncPixelFormat {
    pub bits_per_pixel: u8,
    pub big_endian: bool,
    pub red_max: u16,
    pub green_max: u16,
    pub blue_max: u16,
    pub red_shift: u8,
    pub green_shift: u8,
    pub blue_shift: u8,
}

/// The format that 16 bytes of a server's greeting describe.
pub open spec fn described_format(bytes: Seq<u8>) -> VncPixelFormat {
    VncPixelFormat {
        bits_per_pixel: bytes[0],
        big_endian: bytes[2] != 0,
        red_max: be16(bytes, 4) as u16,
        green_max: be16(bytes, 6) as u16,
        blue_max: be16(bytes, 8) as u16,
        red_shift: bytes[10],
        green_shift: bytes[11],
        blue_shift: bytes[12],
    }
}

/// Whether pixels take one, two or four bytes.
pub open spec fn whole_bytes(bits_per_pixel: u8) -> bool {
    bits_per_pixel == 8 || bits_per_pixel == 16 || bits_per_pixel == 32
}

/// Why a format cannot be used, if it cannot.
pub open spec fn format_refusal(bytes: Seq<u8>) -> Option<Seq<char>> {
    if !whole_bytes(bytes[0]) {
        Some("unsupported VNC bits-per-pixel value "@ + number::decimal_seq(bytes[0] as nat))
    } else if bytes[3] == 0 {
        Some("unsupported VNC color-map pixel format"@)
    } else {
        None
    }
}

/// The number that a pixel's bytes stand for.
pub open spec fn pixel_value(format: VncPixelFormat, bytes: Seq<u8>) -> nat {
    if format.bits_per_pixel == 8 {
        bytes[0] as nat
    } else if format.bits_per_pixel == 16 {
        if format.big_endian {
            be16(bytes, 0)
        } else {
            be16(seq![bytes[1], bytes[0]], 0)
        }
    } else if format.big_endian {
        be32(bytes, 0)
    } else {
        be32(seq![bytes[3], bytes[2], bytes[1], bytes[0]], 0)
    }
}

/// One color of a pixel, scaled to the range from 0 to 255.
pub open spec fn scaled_color(value: u32, shift: u8, max: u16) -> u8 {
    if max == 0 {
        0
    } else {
        (((value >> shift as u32) & max as u32) as nat * 255 / max as nat) as u8
    }
}

/// The red, green and blue of a pixel.
pub open spec fn pixel_color(format: VncPixelFormat, bytes: Seq<u8>) -> (u8, u8, u8) {
    let value = pixel_value(format, bytes) as u32;
    (
        scaled_color(value, format.red_shift, format.red_max),
        scaled_color(value, format.green_shift, format.green_max),
        scaled_color(value, format.blue_shift, format.blue_max),
    )
}

impl VncPixelFormat {
    /// Pixels of this format can be decoded: they take whole bytes, and every color that they have
    /// lies within the 32 bits of a pixel.
    pub open spec fn wf(&self) -> bool {
        &&& whole_bytes(self.bits_per_pixel)
        &&& self.red_max == 0 || self.red_shift < 32
        &&& self.green_max == 0 || self.green_shift < 32
        &&& self.blue_max == 0 || self.blue_shift < 32
    }

    /// How many bytes a pixel takes.
    pub open spec fn pixel_bytes(&self) -> nat {
        (self.bits_per_pixel / 8) as nat
    }

    /// Whether pixels of this format can be decoded.
    pub fn is_decodable(&self) -> (yes: bool)
        ensures
            yes == self.wf(),
    {
        (self.bits_per_pixel == 8 || self.bits_per_pixel == 16 || self.bits_per_pixel == 32)
            && (self.red_max == 0 || self.red_shift < 32) && (self.green_max == 0
            || self.green_shift < 32) && (self.blue_max == 0 || self.blue_shift < 32)
    }

    /// Reads the format from a server's greeting.
    pub fn parse(bytes: &[u8]) -> (out: Result<Self, SessionError>)
        requires
            bytes@.len() >= 13,
        ensures
            match format_refusal(bytes@) {
                Some(message) => out matches Err(error) && error.says(
                    FailureReason::ScreenshotFailed,
                    message,
                ),
                None => out == Ok::<Self, SessionError>(described_format(bytes@)),
            },
    {
        let bits_per_pixel: u8 = bytes[0];
        if bits_per_pixel != 8 && bits_per_pixel != 16 && bits_per_pixel != 32 {
            return Err(
                SessionError::new(
                    FailureReason::ScreenshotFailed,
                    cat2(
                        "unsupported VNC bits-per-pixel value ",
                        decimal(bits_per_pixel as u128).as_str(),
                    ),
                ),
            );
        }
        if bytes[3] == 0 {
            return Err(
                SessionError::new(
                    FailureReason::ScreenshotFailed,
                    owned("unsupported VNC color-map pixel format"),
                ),
            );
        }
        Ok(
            VncPixelFormat {
                bits_per_pixel,
                big_endian: bytes[2] != 0,
                red_max: read16(bytes, 4),
                green_max: read16(bytes, 6),
                blue_max: read16(bytes, 8),
                red_shift: bytes[10],
                green_shift: bytes[11],
                blue_shift: bytes[12],
            },
        )
    }

    /// The red, green and blue of a pixel.
    pub fn decode(&self, bytes: &[u8]) -> (out: (u8, u8, u8))
        requires
            self.wf(),
            bytes@.len() >= self.pixel_bytes(),
        ensures
            out == pixel_color(*self, bytes@),
    {
        let value: u32 = if self.bits_per_pixel == 8 {
            bytes[0] as u32
        } else if self.bits_per_pixel == 16 {
            if self.big_endian {
                read16(bytes, 0) as u32
            } else {
                bytes[1] as u32 * 256 + bytes[0] as u32
            }
        } else if self.big_endian {
            read32(bytes, 0)
        } else {
            (bytes[3] as u32 * 256 + bytes[2] as u32) * 65536 + (bytes[1] as u32 * 256
                + bytes[0] as u32)
        };
        (
            scale_color(value, self.red_shift, self.red_max),
            scale_color(value, self.green_shift, self.green_max),
            scale_color(value, self.blue_shift, self.blue_max),
        )
    }
}

/// One color of a pixel, scaled to the range from 0 to 255.
pub fn scale_color(value: u32, shift: u8, max: u16) -> (out: u8)
    requires
        max == 0 || shift < 32,
    ensures
        out == scaled_color(value, shift, max),
{
    if max == 0 {
        return 0;
    }
    let part: u32 = (value >> shift as u32) & max as u32;
    let whole: u32 = max as u32;
    assert(part <= whole) by {
        let shifted: u32 = value >> shift as u32;
        assert(shifted & whole <= whole) by (bit_vector);
    }
    assert(part * 255 / whole as int <= 255) by (nonlinear_arith)
        requires
            part <= whole,
            whole > 0,
    ;
    (part * 255 / whole) as u8
}

/// A color that is fully present is 255, and one that is absent is 0.
pub proof fn colors_use_the_whole_range(max: u16)
    requires
        max > 0,
    ensures
        scaled_color(0, 0, max) == 0,
        scaled_color(max as u32, 0, max) == 255,
{
    let whole: u32 = max as u32;
    assert(whole >> 0u32 == whole && whole & whole == whole && 0u32 >> 0u32 == 0u32 && 0u32 & whole
        == 0u32) by (bit_vector);
    assert(whole as int * 255 / whole as int == 255) by (nonlinear_arith)
        requires
            whole > 0,
    ;
}

// ---------------------------------------------------------------------------
// The handshake

/// The security type of a server that asks for nothing.
pub const RFB_SECURITY_TYPE_NONE: u8 = 1;

/// The security type of a server that asks for credentials after a key exchange.
pub const RFB_SECURITY_TYPE_APPLE_DH: u8 = 30;

/// The longest modulus that is accepted in a key exchange, in bytes.
pub const MAX_KEY_LENGTH: usize = 4096;

/// How many random bytes make the client's secret in a key exchange.
pub const SECRET_LENGTH: usize = 512;

/// A server's screen.
#[derive(Debug, Clone, Copy, PartialEq, Eq, Structural)]
pub struct VncScreen {
    pub width: u16,
    pub height: u16,
    pub format: VncPixelFormat,
}

/// How far a handshake has come.
pub enum Stage {
    Version,
    LegacySecurity,
    SecurityCount,
    SecurityTypes { count: nat },
    SecurityResult,
    KeyHeader,
    Modulus { generator: nat, length: nat },
    ServerKey { generator: nat, modulus: Seq<u8> },
    Secret { generator: nat, modulus: Seq<u8>, server_key: Seq<u8> },
    FailureLength,
    FailureText { length: nat },
    ServerInit,
    ServerName { screen: VncScreen, length: nat },
    Ready { screen: VncScreen },
    Failed { reason: FailureReason, message: Seq<char> },
}

/// How far a handshake has come, and what is needed to go on.
#[derive(Debug)]
#[allow(inconsistent_fields)]
pub enum Handshake {
    Version,
    LegacySecurity,
    SecurityCount,
    SecurityTypes { count: u8 },
    SecurityResult,
    KeyHeader,
    Modulus { generator: u16, length: u16 },
    ServerKey { generator: u16, modulus: Vec<u8> },
    Secret { generator: u16, modulus: Vec<u8>, server_key: Vec<u8> },
    FailureLength,
    FailureText { length: u32 },
    ServerInit,
    ServerName { screen: VncScreen, length: u32 },
    Ready { screen: VncScreen },
    Failed { error: SessionError },
}

impl View for Handshake {
    type V = Stage;

    open spec fn view(&self) -> Stage {
        match *self {
            Handshake::Version => Stage::Version,
            Handshake::LegacySecurity => Stage::LegacySecurity,
            Handshake::SecurityCount => Stage::SecurityCount,
            Handshake::SecurityTypes { count } => Stage::SecurityTypes { count: count as nat },
            Handshake::SecurityResult => Stage::SecurityResult,
            Handshake::KeyHeader => Stage::KeyHeader,
            Handshake::Modulus { generator, length } => Stage::Modulus {
                generator: generator as nat,
                length: length as nat,
            },
            Handshake::ServerKey { generator, modulus } => Stage::ServerKey {
                generator: generator as nat,
                modulus: modulus@,
            },
            Handshake::Secret { generator, modulus, server_key } => Stage::Secret {
                generator: generator as nat,
                modulus: modulus@,
                server_key: server_key@,
            },
            Handshake::FailureLength => Stage::FailureLength,
            Handshake::FailureText { length } => Stage::FailureText { length: length as nat },
            Handshake::ServerInit => Stage::ServerInit,
            Handshake::ServerName { screen, length } => Stage::ServerName {
                screen,
                length: length as nat,
            },
            Handshake::Ready { screen } => Stage::Ready { screen },
            Handshake::Failed { error } => Stage::Failed {
                reason: error.reason,
                message: error.message@,
            },
        }
    }
}

/// How many bytes a stage takes: from the server, or, for the secret, random ones.
pub open spec fn bytes_wanted(stage: Stage) -> nat {
    match stage {
        Stage::Version => 12,
        Stage::LegacySecurity => 4,
        Stage::SecurityCount => 1,
        Stage::SecurityTypes { count } => count,
        Stage::SecurityResult => 4,
        Stage::KeyHeader => 4,
        Stage::Modulus { length, .. } => length,
        Stage::ServerKey { modulus, .. } => modulus.len(),
        Stage::Secret { .. } => SECRET_LENGTH as nat,
        Stage::FailureLength => 4,
        Stage::FailureText { length } => length,
        Stage::ServerInit => 24,
        Stage::ServerName { length, .. } => length,
        Stage::Ready { .. } => 0,
        Stage::Failed { .. } => 0,
    }
}

/// Whether a handshake is over.
pub open spec fn finished(stage: Stage) -> bool {
    stage is Ready || stage is Failed
}

/// A stage after which the display cannot be used.
pub open spec fn refused(message: Seq<char>) -> Stage {
    Stage::Failed { reason: FailureReason::DisplayStartFailed, message }
}

/// What a security type is called.
pub open spec fn security_type_name(security_type: u8) -> Seq<char> {
    if security_type == 1 {
        "none"@
    } else if security_type == 2 {
        "vnc-auth"@
    } else if security_type == 5 {
        "rsa-aes128"@
    } else if security_type == 19 {
        "vencrypt"@
    } else if security_type == 30 {
        "apple-dh"@
    } else if security_type == 129 {
        "rsa-aes256"@
    } else {
        "unknown-"@ + number::decimal_seq(security_type as nat)
    }
}

/// The names of security types, in order.
pub open spec fn security_type_names(types: Seq<u8>) -> Seq<char> {
    text::join_seq(Seq::new(types.len(), |i: int| security_type_name(types[i])), ", "@)
}

/// The names of security types, in order.
pub fn vnc_security_types_message(types: &[u8]) -> (out: String)
    ensures
        out@ == security_type_names(types@),
{
    let mut names: Vec<String> = Vec::new();
    let mut i: usize = 0;
    while i < types.len()
        invariant
            i <= types@.len(),
            names@.len() == i,
            forall|k: int| 0 <= k < i ==> (#[trigger] names@[k])@ == security_type_name(types@[k]),
        decreases types@.len() - i,
    {
        let security_type: u8 = types[i];
        let name = if security_type == 1 {
            owned("none")
        } else if security_type == 2 {
            owned("vnc-auth")
        } else if security_type == 5 {
            owned("rsa-aes128")
        } else if security_type == 19 {
            owned("vencrypt")
        } else if security_type == 30 {
            owned("apple-dh")
        } else if security_type == 129 {
            owned("rsa-aes256")
        } else {
            cat2("unknown-", decimal(security_type as u128).as_str())
        };
        names.push(name);
        i = i + 1;
    }
    assert(text::views(names@) =~= Seq::new(
        types@.len(),
        |k: int| security_type_name(types@[k]),
    ));
    join(&names, ", ")
}

/// Whether the server speaks the oldest version of the protocol.
pub open spec fn speaks_legacy(version: Seq<u8>) -> bool {
    text::begins(version, vstd::utf8::encode_utf8("RFB 003.003"@))
}

/// The message that asks for plain pixels.
pub open spec fn raw_encoding_message() -> Seq<u8> {
    seq![2u8, 0, 0, 1, 0, 0, 0, 0]
}

/// The screen that a server's greeting describes.
pub open spec fn greeted_screen(bytes: Seq<u8>) -> VncScreen {
    VncScreen {
        width: be16(bytes, 0) as u16,
        height: be16(bytes, 2) as u16,
        format: described_format(bytes.subrange(4, 20)),
    }
}

/// The parameters of a key exchange that are refused.
pub open spec fn key_header_refused(generator: nat, length: nat) -> bool {
    generator == 0 || length == 0 || length > MAX_KEY_LENGTH
}

/// What is sent, and where the handshake goes, when a stage gets the bytes it wants.
pub open spec fn handshake_step(
    stage: Stage,
    username: Seq<char>,
    password: Seq<char>,
    bytes: Seq<u8>,
) -> (Seq<u8>, Stage) {
    let silence = Seq::<u8>::empty();
    match stage {
        Stage::Version => (
            bytes,
            if speaks_legacy(bytes) {
                Stage::LegacySecurity
            } else {
                Stage::SecurityCount
            },
        ),
        Stage::LegacySecurity => if be32(bytes, 0) == 1 {
            (seq![1u8], Stage::ServerInit)
        } else if be32(bytes, 0) == 0 {
            (silence, Stage::FailureLength)
        } else {
            (
                silence,
                refused(
                    "unsupported VNC security type "@ + number::decimal_seq(be32(bytes, 0)),
                ),
            )
        },
        Stage::SecurityCount => if bytes[0] == 0 {
            (silence, Stage::FailureLength)
        } else {
            (silence, Stage::SecurityTypes { count: bytes[0] as nat })
        },
        Stage::SecurityTypes { .. } => if bytes.contains(RFB_SECURITY_TYPE_NONE) {
            (seq![RFB_SECURITY_TYPE_NONE], Stage::SecurityResult)
        } else if bytes.contains(RFB_SECURITY_TYPE_APPLE_DH) {
            (seq![RFB_SECURITY_TYPE_APPLE_DH], Stage::KeyHeader)
        } else {
            (
                silence,
                refused(
                    "VNC server did not offer a supported security type: "@ + security_type_names(
                        bytes,
                    ),
                ),
            )
        },
        Stage::SecurityResult => if be32(bytes, 0) == 0 {
            (seq![1u8], Stage::ServerInit)
        } else if be32(bytes, 0) == 1 || be32(bytes, 0) == 2 {
            (silence, Stage::FailureLength)
        } else {
            (
                silence,
                refused("unknown VNC security result "@ + number::decimal_seq(be32(bytes, 0))),
            )
        },
        Stage::KeyHeader => if key_header_refused(be16(bytes, 0), be16(bytes, 2)) {
            (
                silence,
                refused(
                    "unsupported VNC Apple-DH parameters: generator="@ + number::decimal_seq(
                        be16(bytes, 0),
                    ) + ", key_len="@ + number::decimal_seq(be16(bytes, 2)),
                ),
            )
        } else {
            (silence, Stage::Modulus { generator: be16(bytes, 0), length: be16(bytes, 2) })
        },
        Stage::Modulus { generator, .. } => (
            silence,
            Stage::ServerKey { generator, modulus: bytes },
        ),
        Stage::ServerKey { generator, modulus } => (
            silence,
            Stage::Secret { generator, modulus, server_key: bytes },
        ),
        Stage::Secret { generator, modulus, server_key } => if apple_dh::be_value(modulus) == 0 {
            (silence, refused("VNC Apple-DH server sent an empty modulus"@))
        } else {
            (
                apple_dh::response_bytes(
                    generator,
                    modulus,
                    server_key,
                    username,
                    password,
                    bytes,
                ),
                Stage::SecurityResult,
            )
        },
        Stage::FailureLength => (silence, Stage::FailureText { length: be32(bytes, 0) }),
        Stage::FailureText { .. } => (
            silence,
            refused("VNC handshake failed: "@ + text::utf8_lossy(bytes)),
        ),
        Stage::ServerInit => match format_refusal(bytes.subrange(4, 20)) {
            Some(message) => (
                silence,
                Stage::Failed { reason: FailureReason::ScreenshotFailed, message },
            ),
            None => (
                silence,
                Stage::ServerName { screen: greeted_screen(bytes), length: be32(bytes, 20) },
            ),
        },
        Stage::ServerName { screen, .. } => (raw_encoding_message(), Stage::Ready { screen }),
        Stage::Ready { .. } => (silence, stage),
        Stage::Failed { .. } => (silence, stage),
    }
}

/// Why a handshake ends when its bytes cannot be read.
pub open spec fn unread_failure(stage: Stage, error: Seq<char>) -> (FailureReason, Seq<char>) {
    if stage is FailureLength || stage is FailureText {
        (FailureReason::DisplayStartFailed, "VNC handshake failed"@)
    } else if stage is Secret {
        (FailureReason::InternalError, error)
    } else {
        (FailureReason::ScreenshotFailed, "failed to read from Weston VNC server: "@ + error)
    }
}

/// The failure of a read from the server.
pub fn vnc_read_error(error: &str) -> (out: SessionError)
    ensures
        out.says(
            FailureReason::ScreenshotFailed,
            "failed to read from Weston VNC server: "@ + error@,
        ),
{
    SessionError::new(
        FailureReason::ScreenshotFailed,
        cat2("failed to read from Weston VNC server: ", error),
    )
}

fn refuse(message: String) -> (out: (Vec<u8>, Handshake))
    ensures
        out.0@ == Seq::<u8>::empty(),
        out.1@ == refused(message@),
        out.1 matches Handshake::Failed { error } ==> error.screenshots@.len() == 0,
{
    (
        Vec::new(),
        Handshake::Failed {
            error: SessionError::new(FailureReason::DisplayStartFailed, message),
        },
    )
}

/// Whether `wanted` is among `bytes`.
pub fn holds_byte(bytes: &[u8], wanted: u8) -> (found: bool)
    ensures
        found == bytes@.contains(wanted),
{
    let mut i: usize = 0;
    while i < bytes.len()
        invariant
            i <= bytes@.len(),
            forall|k: int| 0 <= k < i ==> bytes@[k] != wanted,
        decreases bytes@.len() - i,
    {
        if bytes[i] == wanted {
            assert(bytes@[i as int] == wanted);
            return true;
        }
        i = i + 1;
    }
    false
}

/// Whether `bytes` begin with `prefix`.
pub fn bytes_begin(bytes: &[u8], prefix: &[u8]) -> (yes: bool)
    ensures
        yes == text::begins(bytes@, prefix@),
{
    if prefix.len() > bytes.len() {
        return false;
    }
    let front = vstd::slice::slice_subrange(bytes, 0, prefix.len());
    text::same_bytes(front, prefix)
}

impl Handshake {
    /// How many bytes are wanted next.
    pub fn wanted(&self) -> (out: usize)
        ensures
            out == bytes_wanted(self@),
    {
        match self {
            Handshake::Version => 12,
            Handshake::LegacySecurity => 4,
            Handshake::SecurityCount => 1,
            Handshake::SecurityTypes { count } => *count as usize,
            Handshake::SecurityResult => 4,
            Handshake::KeyHeader => 4,
            Handshake::Modulus { length, .. } => *length as usize,
            Handshake::ServerKey { modulus, .. } => modulus.len(),
            Handshake::Secret { .. } => SECRET_LENGTH,
            Handshake::FailureLength => 4,
            Handshake::FailureText { length } => *length as usize,
            Handshake::ServerInit => 24,
            Handshake::ServerName { length, .. } => *length as usize,
            Handshake::Ready { .. } => 0,
            Handshake::Failed { .. } => 0,
        }
    }

    /// Whether the wanted bytes are random ones of the client's own.
    pub fn wants_secret(&self) -> (yes: bool)
        ensures
            yes == (self@ is Secret),
    {
        match self {
            Handshake::Secret { .. } => true,
            _ => false,
        }
    }

    /// The failure when the wanted bytes cannot be had.
    pub fn read_failure(&self, error: &str) -> (out: SessionError)
        ensures
            out.says(unread_failure(self@, error@).0, unread_failure(self@, error@).1),
    {
        match self {
            Handshake::FailureLength | Handshake::FailureText { .. } => SessionError::new(
                FailureReason::DisplayStartFailed,
                owned("VNC handshake failed"),
            ),
            Handshake::Secret { .. } => SessionError::internal(error),
            _ => vnc_read_error(error),
        }
    }

    /// Goes on with the wanted bytes: what to send, and how far the handshake has come then.
    pub fn advance(self, username: &str, password: &str, bytes: &[u8]) -> (out: (
        Vec<u8>,
        Handshake,
    ))
        requires
            bytes@.len() == bytes_wanted(self@),
        ensures
            (out.0@, out.1@) == handshake_step(self@, username@, password@, bytes@),
            !(self is Failed) ==> (out.1 matches Handshake::Failed { error }
                ==> error.screenshots@.len() == 0),
    {
        match self {
            Handshake::Version => {
                let legacy = bytes_begin(bytes, "RFB 003.003".as_bytes());
                let next = if legacy {
                    Handshake::LegacySecurity
                } else {
                    Handshake::SecurityCount
                };
                (vstd::slice::slice_to_vec(bytes), next)
            },
            Handshake::LegacySecurity => {
                let value: u32 = read32(bytes, 0);
                if value == 1 {
                    (vec![1u8], Handshake::ServerInit)
                } else if value == 0 {
                    (Vec::new(), Handshake::FailureLength)
                } else {
                    refuse(
                        cat2("unsupported VNC security type ", decimal(value as u128).as_str()),
                    )
                }
            },
            Handshake::SecurityCount => {
                if bytes[0] == 0 {
                    (Vec::new(), Handshake::FailureLength)
                } else {
                    (Vec::new(), Handshake::SecurityTypes { count: bytes[0] })
                }
            },
            Handshake::SecurityTypes { .. } => {
                if holds_byte(bytes, RFB_SECURITY_TYPE_NONE) {
                    (vec![RFB_SECURITY_TYPE_NONE], Handshake::SecurityResult)
                } else if holds_byte(bytes, RFB_SECURITY_TYPE_APPLE_DH) {
                    (vec![RFB_SECURITY_TYPE_APPLE_DH], Handshake::KeyHeader)
                } else {
                    refuse(
                        cat2(
                            "VNC server did not offer a supported security type: ",
                            vnc_security_types_message(bytes).as_str(),
                        ),
                    )
                }
            },
            Handshake::SecurityResult => {
                let value: u32 = read32(bytes, 0);
                if value == 0 {
                    (vec![1u8], Handshake::ServerInit)
                } else if value == 1 || value == 2 {
                    (Vec::new(), Handshake::FailureLength)
                } else {
                    refuse(cat2("unknown VNC security result ", decimal(value as u128).as_str()))
                }
            },
            Handshake::KeyHeader => {
                let generator: u16 = read16(bytes, 0);
                let length: u16 = read16(bytes, 2);
                if generator == 0 || length == 0 || length as usize > MAX_KEY_LENGTH {
                    refuse(
                        cat4(
                            "unsupported VNC Apple-DH parameters: generator=",
                            decimal(generator as u128).as_str(),
                            ", key_len=",
                            decimal(length as u128).as_str(),
                        ),
                    )
                } else {
                    (Vec::new(), Handshake::Modulus { generator, length })
                }
            },
            Handshake::Modulus { generator, .. } => {
                (
                    Vec::new(),
                    Handshake::ServerKey { generator, modulus: vstd::slice::slice_to_vec(bytes) },
                )
            },
            Handshake::ServerKey { generator, modulus } => {
                let server_key = vstd::slice::slice_to_vec(bytes);
                (Vec::new(), Handshake::Secret { generator, modulus, server_key })
            },
            Handshake::Secret { generator, modulus, server_key } => {
                match vnc_apple_dh_response_with_secret(
                    generator,
                    &modulus,
                    &server_key,
                    username,
                    password,
                    bytes,
                ) {
                    Ok(response) => (response, Handshake::SecurityResult),
                    Err(error) => (Vec::new(), Handshake::Failed { error }),
                }
            },
            Handshake::FailureLength => {
                (Vec::new(), Handshake::FailureText { length: read32(bytes, 0) })
            },
            Handshake::FailureText { .. } => {
                refuse(cat2("VNC handshake failed: ", lossy(bytes).as_str()))
            },
            Handshake::ServerInit => {
                let described = vstd::slice::slice_subrange(bytes, 4, 20);
                match VncPixelFormat::parse(described) {
                    Ok(format) => {
                        let screen = VncScreen {
                            width: read16(bytes, 0),
                            height: read16(bytes, 2),
                            format,
                        };
                        (Vec::new(), Handshake::ServerName { screen, length: read32(bytes, 20) })
                    },
                    Err(error) => (Vec::new(), Handshake::Failed { error }),
                }
            },
            Handshake::ServerName { screen, .. } => {
                (vec![2u8, 0, 0, 1, 0, 0, 0, 0], Handshake::Ready { screen })
            },
            Handshake::Ready { screen } => (Vec::new(), Handshake::Ready { screen }),
            Handshake::Failed { error } => (Vec::new(), Handshake::Failed { error }),
        }
    }
}

/// What a client sends to a server that sends `server`, and how far the handshake comes, in at
/// most `steps` steps.
pub open spec fn converse(
    stage: Stage,
    username: Seq<char>,
    password: Seq<char>,
    server: Seq<u8>,
    secret: Seq<u8>,
    steps: nat,
) -> (Seq<u8>, Stage)
    decreases steps,
{
    let wanted = bytes_wanted(stage) as int;
    if steps == 0 || finished(stage) {
        (Seq::empty(), stage)
    } else if stage is Secret {
        let (sent, next) = handshake_step(stage, username, password, secret);
        let (rest, end) = converse(next, username, password, server, secret, (steps - 1) as nat);
        (sent + rest, end)
    } else if server.len() < wanted {
        (Seq::empty(), stage)
    } else {
        let (sent, next) = handshake_step(stage, username, password, server.take(wanted));
        let (rest, end) = converse(
            next,
            username,
            password,
            server.skip(wanted),
            secret,
            (steps - 1) as nat,
        );
        (sent + rest, end)
    }
}

/// The end of a handshake that the server agrees to: its verdict, its greeting and its name.
pub open spec fn welcome(greeting: Seq<u8>, name: Seq<u8>) -> Seq<u8> {
    seq![0u8, 0, 0, 0] + (greeting + name)
}

/// The part of a handshake that the server agrees to.
proof fn lemma_welcome(
    username: Seq<char>,
    password: Seq<char>,
    greeting: Seq<u8>,
    name: Seq<u8>,
    secret: Seq<u8>,
)
    requires
        greeting.len() == 24,
        format_refusal(greeting.subrange(4, 20)) is None,
        name.len() == be32(greeting, 20),
    ensures
        converse(Stage::SecurityResult, username, password, welcome(greeting, name), secret, 3) == (
            seq![1u8] + raw_encoding_message(),
            Stage::Ready { screen: greeted_screen(greeting) },
        ),
{
    let verdict = seq![0u8, 0, 0, 0];
    let none = Seq::<u8>::empty();
    let raw = raw_encoding_message();
    let named = Stage::ServerName { screen: greeted_screen(greeting), length: name.len() };
    assert(name + none =~= name);
    lemma_converse(named, username, password, name, none, secret, 1);
    assert(raw + none =~= raw);
    lemma_converse(Stage::ServerInit, username, password, greeting, name, secret, 2);
    assert(none + raw =~= raw);
    lemma_converse(Stage::SecurityResult, username, password, verdict, greeting + name, secret, 3);
}

/// A server that offers to ask for nothing lets the client in, whatever else it offers. The
/// client echoes the version, picks that offer, asks to share the screen, and asks for plain
/// pixels.
pub proof fn open_servers_let_the_client_in(
    username: Seq<char>,
    password: Seq<char>,
    version: Seq<u8>,
    types: Seq<u8>,
    greeting: Seq<u8>,
    name: Seq<u8>,
    secret: Seq<u8>,
)
    requires
        version.len() == 12,
        !speaks_legacy(version),
        0 < types.len() < 256,
        types.contains(RFB_SECURITY_TYPE_NONE),
        greeting.len() == 24,
        format_refusal(greeting.subrange(4, 20)) is None,
        name.len() == be32(greeting, 20),
    ensures
        converse(
            Stage::Version,
            username,
            password,
            version + (seq![types.len() as u8] + (types + welcome(greeting, name))),
            secret,
            6,
        ) == (
            version + (seq![RFB_SECURITY_TYPE_NONE] + (seq![1u8] + raw_encoding_message())),
            Stage::Ready { screen: greeted_screen(greeting) },
        ),
{
    let none = Seq::<u8>::empty();
    let count = seq![types.len() as u8];
    let agreed = welcome(greeting, name);
    let offered = types + agreed;
    let typed = Stage::SecurityTypes { count: types.len() };
    lemma_welcome(username, password, greeting, name, secret);
    lemma_converse(typed, username, password, types, agreed, secret, 4);
    let sent = seq![RFB_SECURITY_TYPE_NONE] + (seq![1u8] + raw_encoding_message());
    assert(none + sent =~= sent);
    lemma_converse(Stage::SecurityCount, username, password, count, offered, secret, 5);
    lemma_converse(Stage::Version, username, password, version, count + offered, secret, 6);
}

/// One step of a conversation whose next bytes are `head`.
proof fn lemma_converse(
    stage: Stage,
    username: Seq<char>,
    password: Seq<char>,
    head: Seq<u8>,
    tail: Seq<u8>,
    secret: Seq<u8>,
    steps: nat,
)
    requires
        steps > 0,
        !finished(stage),
        !(stage is Secret),
        head.len() == bytes_wanted(stage),
    ensures
        ({
            let (sent, next) = handshake_step(stage, username, password, head);
            let (rest, end) = converse(next, username, password, tail, secret, (steps - 1) as nat);
            converse(stage, username, password, head + tail, secret, steps) == (sent + rest, end)
        }),
{
    assert((head + tail).take(head.len() as int) =~= head);
    assert((head + tail).skip(head.len() as int) =~= tail);
}

/// A server that offers only a key exchange gets the encrypted credentials, and lets the client
/// in when it accepts them.
pub proof fn key_exchange_servers_get_the_credentials(
    username: Seq<char>,
    password: Seq<char>,
    version: Seq<u8>,
    types: Seq<u8>,
    header: Seq<u8>,
    modulus: Seq<u8>,
    server_key: Seq<u8>,
    greeting: Seq<u8>,
    name: Seq<u8>,
    secret: Seq<u8>,
)
    requires
        version.len() == 12,
        !speaks_legacy(version),
        0 < types.len() < 256,
        !types.contains(RFB_SECURITY_TYPE_NONE),
        types.contains(RFB_SECURITY_TYPE_APPLE_DH),
        header.len() == 4,
        !key_header_refused(be16(header, 0), be16(header, 2)),
        modulus.len() == be16(header, 2),
        apple_dh::be_value(modulus) != 0,
        server_key.len() == modulus.len(),
        greeting.len() == 24,
        format_refusal(greeting.subrange(4, 20)) is None,
        name.len() == be32(greeting, 20),
        secret.len() == SECRET_LENGTH,
    ensures
        converse(
            Stage::Version,
            username,
            password,
            version + (seq![types.len() as u8] + (types + (header + (modulus + (server_key
                + welcome(greeting, name)))))),
            secret,
            10,
        ) == (
            version + (seq![RFB_SECURITY_TYPE_APPLE_DH] + (apple_dh::response_bytes(
                be16(header, 0),
                modulus,
                server_key,
                username,
                password,
                secret,
            ) + (seq![1u8] + raw_encoding_message()))),
            Stage::Ready { screen: greeted_screen(greeting) },
        ),
{
    let none = Seq::<u8>::empty();
    let generator = be16(header, 0);
    let count = seq![types.len() as u8];
    let agreed = welcome(greeting, name);
    let keyed = server_key + agreed;
    let moduli = modulus + keyed;
    let headed = header + moduli;
    let offered = types + headed;
    let typed = Stage::SecurityTypes { count: types.len() };
    let at_secret = Stage::Secret { generator, modulus, server_key };
    let at_key = Stage::ServerKey { generator, modulus };
    let at_modulus = Stage::Modulus { generator, length: modulus.len() };
    let response = apple_dh::response_bytes(
        generator,
        modulus,
        server_key,
        username,
        password,
        secret,
    );
    let answer = response + (seq![1u8] + raw_encoding_message());
    lemma_welcome(username, password, greeting, name, secret);
    assert(converse(at_secret, username, password, agreed, secret, 4).0 == answer);
    assert(none + answer =~= answer);
    lemma_converse(at_key, username, password, server_key, agreed, secret, 5);
    lemma_converse(at_modulus, username, password, modulus, keyed, secret, 6);
    lemma_converse(Stage::KeyHeader, username, password, header, moduli, secret, 7);
    lemma_converse(typed, username, password, types, headed, secret, 8);
    let sent = seq![RFB_SECURITY_TYPE_APPLE_DH] + answer;
    assert(none + sent =~= sent);
    lemma_converse(Stage::SecurityCount, username, password, count, offered, secret, 9);
    lemma_converse(Stage::Version, username, password, version, count + offered, secret, 10);
}

/// Nothing that the client sends depends on the credentials, but for the encrypted answer in a
/// key exchange.
pub proof fn credentials_leave_only_encrypted(
    stage: Stage,
    bytes: Seq<u8>,
    username: Seq<char>,
    password: Seq<char>,
    other_username: Seq<char>,
    other_password: Seq<char>,
)
    requires
        !(stage is Secret),
    ensures
        handshake_step(stage, username, password, bytes) == handshake_step(
            stage,
            other_username,
            other_password,
            bytes,
        ),
{
}

// ---------------------------------------------------------------------------
// Frames

/// The message that asks for the whole screen.
pub open spec fn update_request(screen: VncScreen) -> Seq<u8> {
    seq![3u8, 0, 0, 0, 0, 0] + wire16(screen.width) + wire16(screen.height)
}

/// The message that asks for the whole screen.
pub fn request_framebuffer_update(screen: VncScreen) -> (out: Vec<u8>)
    ensures
        out@ == update_request(screen),
{
    let out: Vec<u8> = vec![
        3u8,
        0,
        0,
        0,
        0,
        0,
        (screen.width / 256) as u8,
        (screen.width % 256) as u8,
        (screen.height / 256) as u8,
        (screen.height % 256) as u8,
    ];
    assert(out@ =~= update_request(screen));
    out
}

/// A part of the screen that a server sends.
#[derive(Debug, Clone, Copy, PartialEq, Eq, Structural)]
pub struct Rectangle {
    pub x: u16,
    pub y: u16,
    pub width: u16,
    pub height: u16,
}

/// How far the reading of an update has come.
pub enum UpdateStage {
    MessageType,
    CutHeader,
    CutText { length: nat },
    UpdateHeader,
    RectangleHeader { left: nat },
    Row { rectangle: Rectangle, row: nat, left: nat },
    Done,
    Failed { message: Seq<char> },
}

/// The same, as it is kept.
#[derive(Debug)]
#[allow(inconsistent_fields)]
pub enum UpdateState {
    MessageType,
    CutHeader,
    CutText { length: u32 },
    UpdateHeader,
    RectangleHeader { left: u16 },
    Row { rectangle: Rectangle, row: u16, left: u16 },
    Done,
    Failed { error: SessionError },
}

impl View for UpdateState {
    type V = UpdateStage;

    open spec fn view(&self) -> UpdateStage {
        match *self {
            UpdateState::MessageType => UpdateStage::MessageType,
            UpdateState::CutHeader => UpdateStage::CutHeader,
            UpdateState::CutText { length } => UpdateStage::CutText { length: length as nat },
            UpdateState::UpdateHeader => UpdateStage::UpdateHeader,
            UpdateState::RectangleHeader { left } => UpdateStage::RectangleHeader {
                left: left as nat,
            },
            UpdateState::Row { rectangle, row, left } => UpdateStage::Row {
                rectangle,
                row: row as nat,
                left: left as nat,
            },
            UpdateState::Done => UpdateStage::Done,
            UpdateState::Failed { error } => UpdateStage::Failed { message: error.message@ },
        }
    }
}

/// How many bytes the reading of an update takes next.
pub open spec fn update_wanted(screen: VncScreen, stage: UpdateStage) -> nat {
    match stage {
        UpdateStage::MessageType => 1,
        UpdateStage::CutHeader => 7,
        UpdateStage::CutText { length } => length,
        UpdateStage::UpdateHeader => 3,
        UpdateStage::RectangleHeader { .. } => 12,
        UpdateStage::Row { rectangle, .. } => rectangle.width as nat * screen.format.pixel_bytes(),
        UpdateStage::Done => 0,
        UpdateStage::Failed { .. } => 0,
    }
}

/// How many bytes hold the colors of a screen.
pub open spec fn frame_length(screen: VncScreen) -> nat {
    screen.width as nat * screen.height as nat * 3
}

/// A screen without light.
pub open spec fn black_frame(screen: VncScreen) -> Seq<u8> {
    Seq::new(frame_length(screen), |i: int| 0u8)
}

/// One of the three colors of a pixel.
pub open spec fn channel(color: (u8, u8, u8), index: int) -> u8 {
    if index == 0 {
        color.0
    } else if index == 1 {
        color.1
    } else {
        color.2
    }
}

/// The pixel that stands at `column` of a row of pixels.
pub open spec fn row_pixel(screen: VncScreen, row: Seq<u8>, column: int) -> (u8, u8, u8) {
    let size = screen.format.pixel_bytes() as int;
    pixel_color(screen.format, row.subrange(column * size, column * size + size))
}

/// The column of the screen that byte `i` of a frame belongs to.
pub open spec fn column_of(screen: VncScreen, i: int) -> int {
    i / 3 % screen.width as int
}

/// The line of the screen that byte `i` of a frame belongs to.
pub open spec fn line_of(screen: VncScreen, i: int) -> int {
    i / 3 / screen.width as int
}

/// A frame with `count` pixels of `row` drawn from column `x` of line `y`.
pub open spec fn with_pixels(
    screen: VncScreen,
    rgb: Seq<u8>,
    row: Seq<u8>,
    x: int,
    y: int,
    count: int,
) -> Seq<u8> {
    Seq::new(
        rgb.len(),
        |i: int|
            if line_of(screen, i) == y && x <= column_of(screen, i) < x + count {
                channel(row_pixel(screen, row, column_of(screen, i) - x), i % 3)
            } else {
                rgb[i]
            },
    )
}

/// Where the reading goes after `left` rectangles are still to come.
pub open spec fn after_rectangle(left: nat) -> UpdateStage {
    if left == 0 {
        UpdateStage::Done
    } else {
        UpdateStage::RectangleHeader { left }
    }
}

/// Whether a rectangle lies on the screen.
pub open spec fn on_screen(screen: VncScreen, rectangle: Rectangle) -> bool {
    &&& rectangle.x + rectangle.width <= screen.width
    &&& rectangle.y + rectangle.height <= screen.height
}

/// The rectangle that 12 bytes describe.
pub open spec fn described_rectangle(bytes: Seq<u8>) -> Rectangle {
    Rectangle {
        x: be16(bytes, 0) as u16,
        y: be16(bytes, 2) as u16,
        width: be16(bytes, 4) as u16,
        height: be16(bytes, 6) as u16,
    }
}

/// Where the reading goes, and what the frame is, when it gets the bytes it wants.
pub open spec fn update_step(
    screen: VncScreen,
    stage: UpdateStage,
    rgb: Seq<u8>,
    bytes: Seq<u8>,
) -> (UpdateStage, Seq<u8>) {
    match stage {
        UpdateStage::MessageType => (
            if bytes[0] == 0 {
                UpdateStage::UpdateHeader
            } else if bytes[0] == 2 {
                UpdateStage::MessageType
            } else if bytes[0] == 3 {
                UpdateStage::CutHeader
            } else {
                UpdateStage::Failed {
                    message: "unexpected VNC server message type "@ + number::decimal_seq(
                        bytes[0] as nat,
                    ),
                }
            },
            rgb,
        ),
        UpdateStage::CutHeader => (UpdateStage::CutText { length: be32(bytes, 3) }, rgb),
        UpdateStage::CutText { .. } => (UpdateStage::MessageType, rgb),
        UpdateStage::UpdateHeader => (after_rectangle(be16(bytes, 1)), black_frame(screen)),
        UpdateStage::RectangleHeader { left } => (
            if be_signed32(bytes, 8) != 0 {
                UpdateStage::Failed {
                    message: "unsupported VNC framebuffer encoding "@ + number::decimal_int(
                        be_signed32(bytes, 8),
                    ),
                }
            } else if !on_screen(screen, described_rectangle(bytes)) {
                UpdateStage::Failed { message: "VNC rectangle exceeds framebuffer bounds"@ }
            } else if be16(bytes, 6) == 0 {
                after_rectangle((left - 1) as nat)
            } else {
                UpdateStage::Row { rectangle: described_rectangle(bytes), row: 0, left }
            },
            rgb,
        ),
        UpdateStage::Row { rectangle, row, left } => (
            if row + 1 < rectangle.height {
                UpdateStage::Row { rectangle, row: row + 1, left }
            } else {
                after_rectangle((left - 1) as nat)
            },
            with_pixels(
                screen,
                rgb,
                bytes,
                rectangle.x as int,
                rectangle.y + row,
                rectangle.width as int,
            ),
        ),
        UpdateStage::Done => (stage, rgb),
        UpdateStage::Failed { .. } => (stage, rgb),
    }
}

/// The reading of one update of the screen.
#[derive(Debug)]
pub struct UpdateReader {
    pub screen: VncScreen,
    pub state: UpdateState,
    pub rgb: Vec<u8>,
}

/// The reading is in order: rectangles and rows are counted rightly, and the frame has its size.
pub open spec fn update_wf(screen: VncScreen, stage: UpdateStage, rgb: Seq<u8>) -> bool {
    &&& stage is RectangleHeader ==> stage->RectangleHeader_left > 0
    &&& stage is Row ==> {
        &&& on_screen(screen, stage->rectangle)
        &&& stage->row < stage->rectangle.height
        &&& stage->Row_left > 0
    }
    &&& stage is RectangleHeader || stage is Row || stage is Done ==> rgb.len() == frame_length(
        screen,
    )
}

impl UpdateReader {
    pub open spec fn wf(&self) -> bool {
        &&& whole_bytes(self.screen.format.bits_per_pixel)
        &&& frame_length(self.screen) <= usize::MAX
        &&& update_wf(self.screen, self.state@, self.rgb@)
    }

    /// Starts to read.
    pub fn new(screen: VncScreen) -> (out: Self)
        requires
            whole_bytes(screen.format.bits_per_pixel),
            frame_length(screen) <= usize::MAX,
        ensures
            out.wf(),
            out.screen == screen,
            out.state@ == UpdateStage::MessageType,
            out.rgb@ == Seq::<u8>::empty(),
    {
        UpdateReader { screen, state: UpdateState::MessageType, rgb: Vec::new() }
    }

    /// How many bytes are wanted next.
    pub fn wanted(&self) -> (out: usize)
        requires
            self.wf(),
        ensures
            out == update_wanted(self.screen, self.state@),
    {
        match &self.state {
            UpdateState::MessageType => 1,
            UpdateState::CutHeader => 7,
            UpdateState::CutText { length } => *length as usize,
            UpdateState::UpdateHeader => 3,
            UpdateState::RectangleHeader { .. } => 12,
            UpdateState::Row { rectangle, .. } => {
                let size: usize = (self.screen.format.bits_per_pixel / 8) as usize;
                assert(rectangle.width * size <= 65535 * 4) by (nonlinear_arith)
                    requires
                        rectangle.width <= 65535,
                        size <= 4,
                ;
                rectangle.width as usize * size
            },
            UpdateState::Done => 0,
            UpdateState::Failed { .. } => 0,
        }
    }

    /// Whether the next bytes are pixels.
    pub fn wants_pixels(&self) -> (yes: bool)
        ensures
            yes == (self.state@ is Row),
    {
        match &self.state {
            UpdateState::Row { .. } => true,
            _ => false,
        }
    }

    /// Goes on with the wanted bytes. Pixels have to be of a format that can be decoded.
    pub fn advance(self, bytes: &[u8]) -> (out: Self)
        requires
            self.wf(),
            self.state@ is Row ==> self.screen.format.wf(),
            bytes@.len() == update_wanted(self.screen, self.state@),
        ensures
            out.wf(),
            out.screen == self.screen,
            (out.state@, out.rgb@) == update_step(self.screen, self.state@, self.rgb@, bytes@),
            !(self.state is Failed) ==> (out.state matches UpdateState::Failed { error } ==> {
                &&& error.reason == FailureReason::ScreenshotFailed
                &&& error.screenshots@.len() == 0
            }),
    {
        let screen = self.screen;
        let mut rgb = self.rgb;
        let state = match self.state {
            UpdateState::MessageType => {
                let kind: u8 = bytes[0];
                if kind == 0 {
                    UpdateState::UpdateHeader
                } else if kind == 2 {
                    UpdateState::MessageType
                } else if kind == 3 {
                    UpdateState::CutHeader
                } else {
                    UpdateState::Failed {
                        error: SessionError::new(
                            FailureReason::ScreenshotFailed,
                            cat2(
                                "unexpected VNC server message type ",
                                decimal(kind as u128).as_str(),
                            ),
                        ),
                    }
                }
            },
            UpdateState::CutHeader => UpdateState::CutText { length: read32(bytes, 3) },
            UpdateState::CutText { .. } => UpdateState::MessageType,
            UpdateState::UpdateHeader => {
                rgb = blank_frame(screen);
                next_rectangle(read16(bytes, 1))
            },
            UpdateState::RectangleHeader { left } => {
                let encoding: i32 = read_signed32(bytes, 8);
                let rectangle = Rectangle {
                    x: read16(bytes, 0),
                    y: read16(bytes, 2),
                    width: read16(bytes, 4),
                    height: read16(bytes, 6),
                };
                if encoding != 0 {
                    UpdateState::Failed {
                        error: SessionError::new(
                            FailureReason::ScreenshotFailed,
                            cat2(
                                "unsupported VNC framebuffer encoding ",
                                decimal_signed(encoding as i64).as_str(),
                            ),
                        ),
                    }
                } else if rectangle.x as usize + rectangle.width as usize > screen.width as usize
                    || rectangle.y as usize + rectangle.height as usize > screen.height as usize {
                    UpdateState::Failed {
                        error: SessionError::new(
                            FailureReason::ScreenshotFailed,
                            owned("VNC rectangle exceeds framebuffer bounds"),
                        ),
                    }
                } else if rectangle.height == 0 {
                    next_rectangle(left - 1)
                } else {
                    UpdateState::Row { rectangle, row: 0, left }
                }
            },
            UpdateState::Row { rectangle, row, left } => {
                draw_row(
                    screen,
                    &mut rgb,
                    bytes,
                    rectangle.x as usize,
                    (rectangle.y + row) as usize,
                    rectangle.width as usize,
                );
                if row + 1 < rectangle.height {
                    UpdateState::Row { rectangle, row: row + 1, left }
                } else {
                    next_rectangle(left - 1)
                }
            },
            UpdateState::Done => UpdateState::Done,
            UpdateState::Failed { error } => UpdateState::Failed { error },
        };
        UpdateReader { screen, state, rgb }
    }
}

fn next_rectangle(left: u16) -> (out: UpdateState)
    ensures
        out@ == after_rectangle(left as nat),
{
    if left == 0 {
        UpdateState::Done
    } else {
        UpdateState::RectangleHeader { left }
    }
}

fn blank_frame(screen: VncScreen) -> (out: Vec<u8>)
    requires
        frame_length(screen) <= usize::MAX,
    ensures
        out@ == black_frame(screen),
{
    proof {
        assert(screen.width * screen.height <= screen.width * screen.height * 3)
            by (nonlinear_arith);
    }
    let length: usize = screen.width as usize * screen.height as usize * 3;
    let mut out: Vec<u8> = Vec::new();
    let mut i: usize = 0;
    while i < length
        invariant
            i <= length,
            out@ == Seq::new(i as nat, |k: int| 0u8),
        decreases length - i,
    {
        out.push(0);
        i = i + 1;
    }
    out
}

/// The bytes of the pixel at a column and a line of the screen.
pub proof fn lemma_pixel_place(screen: VncScreen, column: int, line: int, k: int)
    requires
        0 <= column < screen.width,
        0 <= line < screen.height,
        0 <= k < 3,
    ensures
        ({
            let at = (line * screen.width + column) * 3;
            &&& 0 <= at
            &&& at + 3 <= frame_length(screen)
            &&& column_of(screen, at + k) == column
            &&& line_of(screen, at + k) == line
            &&& (at + k) % 3 == k
        }),
{
    let w = screen.width as int;
    let h = screen.height as int;
    let pixel = line * w + column;
    assert(0 <= pixel && pixel + 1 <= w * h) by (nonlinear_arith)
        requires
            pixel == line * w + column,
            0 <= column < w,
            0 <= line < h,
    ;
    assert((pixel * 3 + k) / 3 == pixel);
    vstd::arithmetic::div_mod::lemma_fundamental_div_mod_converse(pixel, w, line, column);
}

/// A byte of a frame belongs to the pixel at its column and line.
proof fn lemma_place_unique(screen: VncScreen, i: int)
    requires
        0 <= i < frame_length(screen),
    ensures
        screen.width > 0,
        0 <= column_of(screen, i) < screen.width,
        0 <= line_of(screen, i) < screen.height,
        i == (line_of(screen, i) * screen.width + column_of(screen, i)) * 3 + i % 3,
{
    let w = screen.width as int;
    let h = screen.height as int;
    assert(w > 0) by (nonlinear_arith)
        requires
            0 <= i < w * h * 3,
            w >= 0,
            h >= 0,
    ;
    let pixel = i / 3;
    vstd::arithmetic::div_mod::lemma_fundamental_div_mod(pixel, w);
    assert(0 <= pixel % w < w) by (nonlinear_arith)
        requires
            w > 0,
    ;
    assert(0 <= pixel / w && pixel / w < h) by (nonlinear_arith)
        requires
            w > 0,
            0 <= pixel < w * h,
    ;
    assert(w * (pixel / w) == (pixel / w) * w) by (nonlinear_arith);
}

/// Draws a row of pixels from column `x` of line `y`.
fn draw_row(
    screen: VncScreen,
    rgb: &mut Vec<u8>,
    row: &[u8],
    x: usize,
    y: usize,
    width: usize,
)
    requires
        screen.format.wf(),
        old(rgb)@.len() == frame_length(screen),
        x + width <= screen.width,
        y < screen.height,
        row@.len() == width * screen.format.pixel_bytes(),
    ensures
        final(rgb)@ == with_pixels(
            screen,
            old(rgb)@,
            row@,
            x as int,
            y as int,
            width as int,
        ),
{
    let size: usize = (screen.format.bits_per_pixel / 8) as usize;
    let length: usize = row.len();
    let total: usize = rgb.len();
    let ghost before = rgb@;
    let mut column: usize = 0;
    assert(with_pixels(screen, before, row@, x as int, y as int, 0) =~= before);
    while column < width
        invariant
            column <= width,
            size == screen.format.pixel_bytes(),
            size <= 4,
            length == row@.len(),
            row@.len() == width * size,
            screen.format.wf(),
            x + width <= screen.width,
            y < screen.height,
            before.len() == frame_length(screen),
            before.len() == total,
            rgb@ == with_pixels(screen, before, row@, x as int, y as int, column as int),
        decreases width - column,
    {
        assert(column * size + size <= width * size) by (nonlinear_arith)
            requires
                column < width,
        ;
        assert(column * size >= 0) by (nonlinear_arith)
            requires
                column >= 0,
                size >= 0,
        ;
        let from: usize = column * size;
        let color = screen.format.decode(vstd::slice::slice_subrange(row, from, from + size));
        proof {
            lemma_pixel_place(screen, x + column, y as int, 0);
            lemma_pixel_place(screen, x + column, y as int, 1);
            lemma_pixel_place(screen, x + column, y as int, 2);
            let at = (y * screen.width + x + column) * 3;
            assert(at + 3 <= total);
            assert(y * screen.width >= 0) by (nonlinear_arith)
                requires
                    y >= 0,
                    screen.width >= 0,
            ;
        }
        let at: usize = (y * screen.width as usize + x + column) * 3;
        let ghost held = rgb@;
        rgb.set(at, color.0);
        rgb.set(at + 1, color.1);
        rgb.set(at + 2, color.2);
        proof {
            let wanted = with_pixels(screen, before, row@, x as int, y as int, column + 1);
            assert forall|i: int| 0 <= i < rgb@.len() implies rgb@[i] == wanted[i] by {
                lemma_place_unique(screen, i);
                if line_of(screen, i) == y && column_of(screen, i) == x + column {
                    assert(i == at + i % 3);
                } else {
                    assert(i != at && i != at + 1 && i != at + 2);
                }
            }
            assert(rgb@ =~= wanted);
        }
        column = column + 1;
    }
}

/// Where the reading of what a server sends comes to, and the frame then, in at most `steps`
/// steps.
pub open spec fn read_update(
    screen: VncScreen,
    stage: UpdateStage,
    rgb: Seq<u8>,
    server: Seq<u8>,
    steps: nat,
) -> (UpdateStage, Seq<u8>)
    decreases steps,
{
    let wanted = update_wanted(screen, stage) as int;
    if steps == 0 || stage is Done || stage is Failed || server.len() < wanted {
        (stage, rgb)
    } else {
        let (next, frame) = update_step(screen, stage, rgb, server.take(wanted));
        read_update(screen, next, frame, server.skip(wanted), (steps - 1) as nat)
    }
}

/// One step of a reading whose next bytes are `head`.
proof fn lemma_read_update(
    screen: VncScreen,
    stage: UpdateStage,
    rgb: Seq<u8>,
    head: Seq<u8>,
    tail: Seq<u8>,
    steps: nat,
)
    requires
        steps > 0,
        !(stage is Done || stage is Failed),
        head.len() == update_wanted(screen, stage),
    ensures
        ({
            let (next, frame) = update_step(screen, stage, rgb, head);
            read_update(screen, stage, rgb, head + tail, steps) == read_update(
                screen,
                next,
                frame,
                tail,
                (steps - 1) as nat,
            )
        }),
{
    assert((head + tail).take(head.len() as int) =~= head);
    assert((head + tail).skip(head.len() as int) =~= tail);
}

/// A bell, and a clipboard of any length with its padding, leave the reading where it was.
pub proof fn bells_and_clipboards_are_skipped(
    screen: VncScreen,
    rgb: Seq<u8>,
    header: Seq<u8>,
    clipboard: Seq<u8>,
    rest: Seq<u8>,
    steps: nat,
)
    requires
        header.len() == 7,
        clipboard.len() == be32(header, 3),
    ensures
        read_update(screen, UpdateStage::MessageType, rgb, seq![2u8] + rest, steps + 1)
            == read_update(screen, UpdateStage::MessageType, rgb, rest, steps),
        read_update(
            screen,
            UpdateStage::MessageType,
            rgb,
            seq![3u8] + header + clipboard + rest,
            steps + 3,
        ) == read_update(screen, UpdateStage::MessageType, rgb, rest, steps),
{
    let start = UpdateStage::MessageType;
    let texted = UpdateStage::CutText { length: clipboard.len() };
    lemma_read_update(screen, start, rgb, seq![2u8], rest, steps + 1);
    lemma_read_update(screen, texted, rgb, clipboard, rest, steps + 1);
    lemma_read_update(screen, UpdateStage::CutHeader, rgb, header, clipboard + rest, steps + 2);
    lemma_read_update(screen, start, rgb, seq![3u8], header + (clipboard + rest), steps + 3);
    assert(seq![3u8] + header + clipboard + rest =~= seq![3u8] + (header + (clipboard + rest)));
}

/// How many bytes a row of a rectangle takes.
pub open spec fn row_bytes(screen: VncScreen, rectangle: Rectangle) -> int {
    rectangle.width as int * screen.format.pixel_bytes() as int
}

/// The bytes of one row of a rectangle.
pub open spec fn row_of(
    screen: VncScreen,
    rectangle: Rectangle,
    pixels: Seq<u8>,
    row: int,
) -> Seq<u8> {
    let size = row_bytes(screen, rectangle);
    pixels.subrange(row * size, row * size + size)
}

/// A frame with the rows of a rectangle from `from` up to `to` drawn over it.
pub open spec fn with_rows(
    screen: VncScreen,
    rgb: Seq<u8>,
    rectangle: Rectangle,
    pixels: Seq<u8>,
    from: int,
    to: int,
) -> Seq<u8> {
    Seq::new(
        rgb.len(),
        |i: int|
            {
                let row = line_of(screen, i) - rectangle.y;
                let column = column_of(screen, i) - rectangle.x;
                if from <= row < to && 0 <= column < rectangle.width {
                    channel(
                        row_pixel(screen, row_of(screen, rectangle, pixels, row), column),
                        i % 3,
                    )
                } else {
                    rgb[i]
                }
            },
    )
}

/// A rectangle of plain pixels changes the colors of its own pixels to those it brings, row by
/// row, and of no others; the frame keeps its size, and the reading goes on after it.
pub proof fn rectangles_are_drawn_pixel_by_pixel(
    screen: VncScreen,
    rgb: Seq<u8>,
    rectangle: Rectangle,
    left: nat,
    pixels: Seq<u8>,
    rest: Seq<u8>,
    steps: nat,
)
    requires
        rectangle.height > 0,
        pixels.len() == rectangle.height * row_bytes(screen, rectangle),
    ensures
        read_update(
            screen,
            UpdateStage::Row { rectangle, row: 0, left },
            rgb,
            pixels + rest,
            rectangle.height as nat + steps,
        ) == read_update(
            screen,
            after_rectangle((left - 1) as nat),
            with_rows(screen, rgb, rectangle, pixels, 0, rectangle.height as int),
            rest,
            steps,
        ),
{
    assert(with_rows(screen, rgb, rectangle, pixels, 0, 0) =~= rgb);
    assert(0 * row_bytes(screen, rectangle) == 0) by (nonlinear_arith);
    assert(pixels.skip(0) =~= pixels);
    lemma_rows(screen, rgb, rectangle, left, pixels, rest, steps, 0);
}

proof fn lemma_rows(
    screen: VncScreen,
    rgb: Seq<u8>,
    rectangle: Rectangle,
    left: nat,
    pixels: Seq<u8>,
    rest: Seq<u8>,
    steps: nat,
    row: int,
)
    requires
        0 <= row < rectangle.height,
        pixels.len() == rectangle.height * row_bytes(screen, rectangle),
    ensures
        read_update(
            screen,
            UpdateStage::Row { rectangle, row: row as nat, left },
            with_rows(screen, rgb, rectangle, pixels, 0, row),
            pixels.skip(row * row_bytes(screen, rectangle)) + rest,
            (rectangle.height - row) as nat + steps,
        ) == read_update(
            screen,
            after_rectangle((left - 1) as nat),
            with_rows(screen, rgb, rectangle, pixels, 0, rectangle.height as int),
            rest,
            steps,
        ),
    decreases rectangle.height - row,
{
    let size = row_bytes(screen, rectangle);
    let height = rectangle.height as int;
    assert(size >= 0) by (nonlinear_arith)
        requires
            size == rectangle.width as int * screen.format.pixel_bytes() as int,
    ;
    assert(0 <= row * size && row * size + size == (row + 1) * size && (row + 1) * size <= height
        * size) by (nonlinear_arith)
        requires
            0 <= row < height,
            size >= 0,
    ;
    let head = row_of(screen, rectangle, pixels, row);
    let tail = pixels.skip((row + 1) * size) + rest;
    let stage = UpdateStage::Row { rectangle, row: row as nat, left };
    let frame = with_rows(screen, rgb, rectangle, pixels, 0, row);
    assert(pixels.skip(row * size) + rest =~= head + tail);
    lemma_read_update(screen, stage, frame, head, tail, (rectangle.height - row) as nat + steps);
    let drawn = with_pixels(
        screen,
        frame,
        head,
        rectangle.x as int,
        rectangle.y + row,
        rectangle.width as int,
    );
    assert(drawn =~= with_rows(screen, rgb, rectangle, pixels, 0, row + 1));
    if row + 1 < rectangle.height {
        lemma_rows(screen, rgb, rectangle, left, pixels, rest, steps, row + 1);
    } else {
        assert(tail =~= rest);
    }
}

// ---------------------------------------------------------------------------
// The pointer

/// Where the pointer waits while the screen is captured.
pub open spec fn park_position() -> (int, int) {
    (1, 1)
}

/// How long the pointer rests there before the screen is captured, in milliseconds.
pub const POINTER_PARK_SETTLE_MS: u64 = 75;

/// `value`, or the nearest coordinate on a side of `length` pixels.
pub open spec fn clamped(value: int, length: nat) -> u16 {
    if value < 0 || length == 0 {
        0
    } else if value >= length {
        (length - 1) as u16
    } else {
        value as u16
    }
}

/// The message that puts the pointer at a place with some buttons down.
pub open spec fn pointer_message(buttons: u8, x: u16, y: u16) -> Seq<u8> {
    seq![5u8, buttons] + wire16(x) + wire16(y)
}

fn clamp(value: i32, length: u16) -> (out: u16)
    ensures
        out == clamped(value as int, length as nat),
{
    if value < 0 || length == 0 {
        0
    } else if value >= length as i32 {
        length - 1
    } else {
        value as u16
    }
}

/// The message that puts the pointer at a place with some buttons down.
pub fn pointer_event(buttons: u8, x: u16, y: u16) -> (out: Vec<u8>)
    ensures
        out@ == pointer_message(buttons, x, y),
{
    let out: Vec<u8> = vec![
        5u8,
        buttons,
        (x / 256) as u8,
        (x % 256) as u8,
        (y / 256) as u8,
        (y % 256) as u8,
    ];
    assert(out@ =~= pointer_message(buttons, x, y));
    out
}

/// The message that moves the pointer to the nearest place on the screen.
pub fn move_pointer(screen: VncScreen, target: (i32, i32)) -> (out: Vec<u8>)
    ensures
        out@ == pointer_message(
            0,
            clamped(target.0 as int, screen.width as nat),
            clamped(target.1 as int, screen.height as nat),
        ),
{
    pointer_event(0, clamp(target.0, screen.width), clamp(target.1, screen.height))
}

/// The message that parks the pointer.
pub fn park_pointer(screen: VncScreen) -> (out: Vec<u8>)
    ensures
        out@ == pointer_message(
            0,
            clamped(park_position().0, screen.width as nat),
            clamped(park_position().1, screen.height as nat),
        ),
{
    move_pointer(screen, (1, 1))
}

/// A message to send, and how long to wait after it.
#[derive(Debug)]
pub struct PointerStep {
    pub message: Vec<u8>,
    pub settle: Duration,
}

/// A click: the pointer arrives, the button goes down, and the button comes up.
pub fn click(screen: VncScreen, target: (i32, i32)) -> (out: Vec<PointerStep>)
    ensures
        out@.len() == 3,
        ({
            let x = clamped(target.0 as int, screen.width as nat);
            let y = clamped(target.1 as int, screen.height as nat);
            &&& out@[0].message@ == pointer_message(0, x, y)
            &&& out@[0].settle@ == time::millis(150)
            &&& out@[1].message@ == pointer_message(1, x, y)
            &&& out@[1].settle@ == time::millis(100)
            &&& out@[2].message@ == pointer_message(0, x, y)
            &&& out@[2].settle@ == time::millis(500)
        }),
{
    let x: u16 = clamp(target.0, screen.width);
    let y: u16 = clamp(target.1, screen.height);
    vec![
        PointerStep { message: pointer_event(0, x, y), settle: Duration::from_millis(150) },
        PointerStep { message: pointer_event(1, x, y), settle: Duration::from_millis(100) },
        PointerStep { message: pointer_event(0, x, y), settle: Duration::from_millis(500) },
    ]
}

/// The pointer never leaves the screen.
pub proof fn the_pointer_stays_on_the_screen(value: int, length: u16)
    requires
        length > 0,
    ensures
        clamped(value, length as nat) < length,
        0 <= value < length ==> clamped(value, length as nat) == value,
{
}

// ---------------------------------------------------------------------------
// Pictures

/// A frame as a portable pixmap.
pub open spec fn pixmap(screen: VncScreen, rgb: Seq<u8>) -> Seq<u8> {
    vstd::utf8::encode_utf8(
        "P6\n"@ + number::decimal_seq(screen.width as nat) + " "@ + number::decimal_seq(
            screen.height as nat,
        ) + "\n255\n"@,
    ) + rgb
}

/// A frame as a portable pixmap.
pub fn ppm(screen: VncScreen, rgb: &[u8]) -> (out: Vec<u8>)
    ensures
        out@ == pixmap(screen, rgb@),
{
    let header = cat5(
        "P6\n",
        decimal(screen.width as u128).as_str(),
        " ",
        decimal(screen.height as u128).as_str(),
        "\n255\n",
    );
    let mut out = vstd::slice::slice_to_vec(header.as_str().as_bytes());
    append(&mut out, rgb);
    out
}

} // verus!
