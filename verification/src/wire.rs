//! Byte-level framing shared by the commands and events on the helpers' pipes.
//!
//! Integers are little-endian, flags are one byte that is 0 or 1, and every
//! variable-length field is preceded by its length in four bytes.
use crate::model::{VideoCodec, VideoPixelFormat};
use crate::text;
use crate::text::{joined, push_decimal};
use vstd::prelude::*;
use vstd::utf8;

verus! {

pub const MAX_CODEC_CONFIG_BYTES: usize = 1_048_576;

pub const MAX_FRAME_BYTES: usize = 33_554_432;

pub const MAX_ERROR_BYTES: usize = 65_536;

pub const MAX_CONTROL_BYTES: usize = 65_536;

pub const MAX_DISPLAY_NAME_BYTES: usize = 4_096;

pub const MAX_DISPLAYS: usize = 64;

pub const MAX_PROTECTED_CREDENTIAL_BYTES: usize = 8_192;

pub const MAX_CREDENTIAL_RESULT_BYTES: usize = 32_768;

/// The display id that stands for "no display" on the wire.
pub const NO_DISPLAY: u32 = 0xffff_ffff;

/// A variable-length field, as error messages name it.
#[derive(Debug, Clone, Copy, PartialEq, Eq, Structural)]
pub enum Label {
    ViewerName,
    ProtectedCredentials,
    FileTransfer,
    DesktopInput,
    BlackoutMessage,
    DesktopClipboard,
    ClipboardContent,
    ChatText,
    CredentialResult,
    DisplayList,
    DisplayCount,
    DisplayName,
    MaintenanceError,
    CodecConfiguration,
    EncodedFrame,
    CursorShape,
    DesktopHelperError,
}

impl Label {
    pub open spec fn text_of(self) -> Seq<char> {
        match self {
            Label::ViewerName => "viewer name"@,
            Label::ProtectedCredentials => "protected credentials"@,
            Label::FileTransfer => "file transfer"@,
            Label::DesktopInput => "desktop input"@,
            Label::BlackoutMessage => "blackout message"@,
            Label::DesktopClipboard => "desktop clipboard"@,
            Label::ClipboardContent => "clipboard content"@,
            Label::ChatText => "chat text"@,
            Label::CredentialResult => "credential result"@,
            Label::DisplayList => "display list"@,
            Label::DisplayCount => "display count"@,
            Label::DisplayName => "display name"@,
            Label::MaintenanceError => "maintenance error"@,
            Label::CodecConfiguration => "codec configuration"@,
            Label::EncodedFrame => "encoded frame"@,
            Label::CursorShape => "cursor shape"@,
            Label::DesktopHelperError => "desktop-helper error"@,
        }
    }

    pub fn text(&self) -> (text: &'static str)
        ensures
            text@ == self.text_of(),
    {
        match self {
            Label::ViewerName => "viewer name",
            Label::ProtectedCredentials => "protected credentials",
            Label::FileTransfer => "file transfer",
            Label::DesktopInput => "desktop input",
            Label::BlackoutMessage => "blackout message",
            Label::DesktopClipboard => "desktop clipboard",
            Label::ClipboardContent => "clipboard content",
            Label::ChatText => "chat text",
            Label::CredentialResult => "credential result",
            Label::DisplayList => "display list",
            Label::DisplayCount => "display count",
            Label::DisplayName => "display name",
            Label::MaintenanceError => "maintenance error",
            Label::CodecConfiguration => "codec configuration",
            Label::EncodedFrame => "encoded frame",
            Label::CursorShape => "cursor shape",
            Label::DesktopHelperError => "desktop-helper error",
        }
    }
}

/// Why a frame could not be written or read.
#[derive(Debug, Clone, Copy, PartialEq, Eq, Structural)]
pub enum WireError {
    /// The bytes end before the frame does.
    UnexpectedEnd,
    /// A field is longer than its limit.
    TooLong(Label),
    UnknownCommand(u8),
    UnknownEvent(u8),
    InvalidBoolean,
    InvalidBlackoutFlag,
    InvalidInputBlockFlag,
    InvalidKeyframeFlag(u8),
    InvalidPrimaryFlag(u8),
    InvalidCodec(u8),
    InvalidPixelFormat(u8),
    InvalidMaintenanceState,
    InvalidCredentialPromptState,
    UnknownActiveDisplay,
    NotUtf8,
    InvalidChatText,
    /// An encoded payload could not be decoded.
    Undecodable(Label),
    /// An input frame held another message.
    NotInput,
    /// A cursor frame held another message.
    NotCursor,
    /// A file frame held another message.
    NotFileTransfer,
}

/// The broad kinds that input and output errors come in.
#[derive(Debug, Clone, Copy, PartialEq, Eq, Structural)]
pub enum ErrorKind {
    UnexpectedEof,
    InvalidData,
    Other,
}

impl WireError {
    pub open spec fn kind_of(self) -> ErrorKind {
        match self {
            WireError::UnexpectedEnd => ErrorKind::UnexpectedEof,
            WireError::InvalidCredentialPromptState => ErrorKind::Other,
            WireError::NotFileTransfer => ErrorKind::Other,
            WireError::Undecodable(Label::FileTransfer) => ErrorKind::Other,
            WireError::Undecodable(Label::CredentialResult) => ErrorKind::Other,
            _ => ErrorKind::InvalidData,
        }
    }

    pub fn kind(&self) -> (kind: ErrorKind)
        ensures
            kind == self.kind_of(),
    {
        match self {
            WireError::UnexpectedEnd => ErrorKind::UnexpectedEof,
            WireError::InvalidCredentialPromptState => ErrorKind::Other,
            WireError::NotFileTransfer => ErrorKind::Other,
            WireError::Undecodable(Label::FileTransfer) => ErrorKind::Other,
            WireError::Undecodable(Label::CredentialResult) => ErrorKind::Other,
            _ => ErrorKind::InvalidData,
        }
    }

    /// The text of an error, where this library words it; an early end, bytes
    /// that are not text and payloads that do not decode are worded by whatever
    /// found them.
    pub open spec fn text_of(self) -> Option<Seq<char>> {
        match self {
            WireError::UnexpectedEnd => None,
            WireError::NotUtf8 => None,
            WireError::Undecodable(_) => None,
            WireError::TooLong(label) => Some(label.text_of() + " exceeds the IPC size limit"@),
            WireError::UnknownCommand(value) => Some("unknown desktop-helper command opcode "@ + text::decimal(value as nat)),
            WireError::UnknownEvent(value) => Some("unknown desktop-helper event opcode "@ + text::decimal(value as nat)),
            WireError::InvalidKeyframeFlag(value) => Some("invalid keyframe flag "@ + text::decimal(value as nat)),
            WireError::InvalidPrimaryFlag(value) => Some("invalid display primary flag "@ + text::decimal(value as nat)),
            WireError::InvalidCodec(value) => Some("invalid desktop-helper codec "@ + text::decimal(value as nat)),
            WireError::InvalidPixelFormat(value) => Some("invalid desktop-helper pixel format "@ + text::decimal(value as nat)),
            WireError::InvalidBoolean => Some("invalid boolean"@),
            WireError::InvalidBlackoutFlag => Some("invalid blackout flag"@),
            WireError::InvalidInputBlockFlag => Some("invalid input block flag"@),
            WireError::InvalidMaintenanceState => Some("invalid maintenance state"@),
            WireError::InvalidCredentialPromptState => Some("invalid credential prompt state"@),
            WireError::UnknownActiveDisplay => Some("desktop helper selected an unknown display"@),
            WireError::InvalidChatText => Some("invalid chat text"@),
            WireError::NotInput => Some("desktop input contained a non-input message"@),
            WireError::NotCursor => Some("cursor event contained an unexpected message"@),
            WireError::NotFileTransfer => Some("invalid file transfer packet"@),
        }
    }

    pub fn message(&self) -> (message: Option<String>)
        ensures
            match self.text_of() {
                Some(text) => message is Some && message->Some_0@ == text,
                None => message is None,
            },
    {
        match self {
            WireError::UnexpectedEnd => None,
            WireError::NotUtf8 => None,
            WireError::Undecodable(_) => None,
            WireError::TooLong(label) => Some(
                joined(label.text(), " exceeds the IPC size limit"),
            ),
            WireError::UnknownCommand(value) => Some(numbered("unknown desktop-helper command opcode ", *value)),
            WireError::UnknownEvent(value) => Some(numbered("unknown desktop-helper event opcode ", *value)),
            WireError::InvalidKeyframeFlag(value) => Some(numbered("invalid keyframe flag ", *value)),
            WireError::InvalidPrimaryFlag(value) => Some(numbered("invalid display primary flag ", *value)),
            WireError::InvalidCodec(value) => Some(numbered("invalid desktop-helper codec ", *value)),
            WireError::InvalidPixelFormat(value) => Some(numbered("invalid desktop-helper pixel format ", *value)),
            WireError::InvalidBoolean => Some("invalid boolean".to_owned()),
            WireError::InvalidBlackoutFlag => Some("invalid blackout flag".to_owned()),
            WireError::InvalidInputBlockFlag => Some("invalid input block flag".to_owned()),
            WireError::InvalidMaintenanceState => Some("invalid maintenance state".to_owned()),
            WireError::InvalidCredentialPromptState => Some("invalid credential prompt state".to_owned()),
            WireError::UnknownActiveDisplay => Some("desktop helper selected an unknown display".to_owned()),
            WireError::InvalidChatText => Some("invalid chat text".to_owned()),
            WireError::NotInput => Some("desktop input contained a non-input message".to_owned()),
            WireError::NotCursor => Some("cursor event contained an unexpected message".to_owned()),
            WireError::NotFileTransfer => Some("invalid file transfer packet".to_owned()),
        }
    }
}

fn numbered(before: &str, value: u8) -> (message: String)
    ensures
        message@ == before@ + text::decimal(value as nat),
{
    let mut message = before.to_owned();
    push_decimal(&mut message, value as u64);
    message
}

/// What reading a `T` from a byte sequence gives: the value and what follows it.
pub type Parsed<T> = Result<(T, Seq<u8>), WireError>;

#[verifier::opaque]
pub open spec fn u32_bytes(value: u32) -> Seq<u8> {
    seq![
        (value % 256) as u8,
        (value / 256 % 256) as u8,
        (value / 65536 % 256) as u8,
        (value / 16777216) as u8,
    ]
}

#[verifier::opaque]
pub open spec fn u64_bytes(value: u64) -> Seq<u8> {
    u32_bytes((value % 4294967296) as u32) + u32_bytes((value / 4294967296) as u32)
}

pub open spec fn u32_of(s: Seq<u8>) -> u32 {
    (s[0] + 256 * s[1] + 65536 * s[2] + 16777216 * s[3]) as u32
}

pub open spec fn u64_of(s: Seq<u8>) -> u64 {
    (u32_of(s) + 4294967296 * u32_of(s.skip(4))) as u64
}

pub open spec fn flag_byte(value: bool) -> u8 {
    if value {
        1
    } else {
        0
    }
}

pub open spec fn parse_u8(s: Seq<u8>) -> Parsed<u8> {
    if s.len() < 1 {
        Err(WireError::UnexpectedEnd)
    } else {
        Ok((s[0], s.skip(1)))
    }
}

pub open spec fn parse_u32(s: Seq<u8>) -> Parsed<u32> {
    if s.len() < 4 {
        Err(WireError::UnexpectedEnd)
    } else {
        Ok((u32_of(s), s.skip(4)))
    }
}

pub open spec fn parse_u64(s: Seq<u8>) -> Parsed<u64> {
    if s.len() < 8 {
        Err(WireError::UnexpectedEnd)
    } else {
        Ok((u64_of(s), s.skip(8)))
    }
}

/// One byte that must be 0 or 1; `refusal` names the error for any other.
pub open spec fn parse_flag(s: Seq<u8>, refusal: spec_fn(u8) -> WireError) -> Parsed<bool> {
    match parse_u8(s) {
        Err(error) => Err(error),
        Ok((value, rest)) => if value > 1 {
            Err(refusal(value))
        } else {
            Ok((value == 1, rest))
        },
    }
}

pub open spec fn parse_bool(s: Seq<u8>) -> Parsed<bool> {
    parse_flag(s, |value: u8| WireError::InvalidBoolean)
}

pub open spec fn codec_code(codec: VideoCodec) -> u8 {
    match codec {
        VideoCodec::H264 => 1,
        VideoCodec::H265 => 2,
    }
}

pub open spec fn pixel_format_code(pixel_format: VideoPixelFormat) -> u8 {
    match pixel_format {
        VideoPixelFormat::Yuv420 => 1,
        VideoPixelFormat::Yuv444 => 2,
    }
}

pub open spec fn parse_codec(s: Seq<u8>) -> Parsed<VideoCodec> {
    match parse_u8(s) {
        Err(error) => Err(error),
        Ok((value, rest)) => if value == 1 {
            Ok((VideoCodec::H264, rest))
        } else if value == 2 {
            Ok((VideoCodec::H265, rest))
        } else {
            Err(WireError::InvalidCodec(value))
        },
    }
}

pub open spec fn parse_pixel_format(s: Seq<u8>) -> Parsed<VideoPixelFormat> {
    match parse_u8(s) {
        Err(error) => Err(error),
        Ok((value, rest)) => if value == 1 {
            Ok((VideoPixelFormat::Yuv420, rest))
        } else if value == 2 {
            Ok((VideoPixelFormat::Yuv444, rest))
        } else {
            Err(WireError::InvalidPixelFormat(value))
        },
    }
}

/// The bytes of a variable-length field: its length, then itself.
#[verifier::opaque]
pub open spec fn blob_bytes(blob: Seq<u8>) -> Seq<u8> {
    u32_bytes(blob.len() as u32) + blob
}

#[verifier::opaque]
pub open spec fn text_bytes(text: Seq<char>) -> Seq<u8> {
    blob_bytes(utf8::encode_utf8(text))
}

/// A field's length, refused if it is over the limit: no byte of the field has
/// to be there for that.
pub open spec fn parse_length(s: Seq<u8>, maximum: usize, label: Label) -> Parsed<u32> {
    match parse_u32(s) {
        Err(error) => Err(error),
        Ok((length, rest)) => if length > maximum {
            Err(WireError::TooLong(label))
        } else {
            Ok((length, rest))
        },
    }
}

pub open spec fn parse_exact(s: Seq<u8>, length: int) -> Parsed<Seq<u8>> {
    if s.len() < length {
        Err(WireError::UnexpectedEnd)
    } else {
        Ok((s.take(length), s.skip(length)))
    }
}

#[verifier::opaque]
pub open spec fn parse_blob(s: Seq<u8>, maximum: usize, label: Label) -> Parsed<Seq<u8>> {
    match parse_length(s, maximum, label) {
        Err(error) => Err(error),
        Ok((length, rest)) => parse_exact(rest, length as int),
    }
}

#[verifier::opaque]
pub open spec fn parse_text(s: Seq<u8>, maximum: usize, label: Label) -> Parsed<Seq<char>> {
    match parse_blob(s, maximum, label) {
        Err(error) => Err(error),
        Ok((blob, rest)) => if utf8::valid_utf8(blob) {
            Ok((utf8::decode_utf8(blob), rest))
        } else {
            Err(WireError::NotUtf8)
        },
    }
}

/// Bytes in, a position that moves forward: the receiving end of a pipe.
pub struct PipeReader<'a> {
    bytes: &'a [u8],
    position: usize,
}

impl<'a> PipeReader<'a> {
    #[verifier::type_invariant]
    spec fn inside(self) -> bool {
        self.position <= self.bytes@.len()
    }

    /// The bytes not yet consumed.
    pub closed spec fn rest(self) -> Seq<u8> {
        self.bytes@.skip(self.position as int)
    }

    pub fn new(bytes: &'a [u8]) -> (reader: Self)
        ensures
            reader.rest() == bytes@,
    {
        let reader = PipeReader { bytes, position: 0 };
        assert(bytes@.skip(0) =~= bytes@);
        reader
    }

    pub fn is_empty(&self) -> (empty: bool)
        ensures
            empty == (self.rest().len() == 0),
    {
        proof {
            use_type_invariant(self);
        }
        self.position == self.bytes.len()
    }

    pub fn remaining(&self) -> (length: usize)
        ensures
            length == self.rest().len(),
    {
        proof {
            use_type_invariant(self);
        }
        self.bytes.len() - self.position
    }

    /// Consumes exactly `length` bytes, or nothing.
    pub fn take(&mut self, length: usize) -> (result: Result<Vec<u8>, WireError>)
        ensures
            match result {
                Ok(taken) => length <= old(self).rest().len() && taken@ == old(self).rest().take(
                    length as int,
                ) && final(self).rest() == old(self).rest().skip(length as int),
                Err(error) => error == WireError::UnexpectedEnd && length > old(self).rest().len()
                    && final(self).rest() == old(self).rest(),
            },
    {
        proof {
            use_type_invariant(&*self);
        }
        if length > self.bytes.len() - self.position {
            return Err(WireError::UnexpectedEnd);
        }
        let end: usize = self.position + length;
        let taken = vstd::slice::slice_to_vec(
            vstd::slice::slice_subrange(self.bytes, self.position, end),
        );
        assert(taken@ =~= self.rest().take(length as int));
        assert(self.bytes@.skip(end as int) =~= self.rest().skip(length as int));
        self.position = end;
        Ok(taken)
    }
}

/// What a read owes: the parsed value and the bytes after it, or the error.
pub open spec fn reads<T>(after: Seq<u8>, result: Result<T, WireError>, parsed: Parsed<T>) -> bool {
    match parsed {
        Ok((value, rest)) => result == Ok::<T, WireError>(value) && after == rest,
        Err(error) => result == Err::<T, WireError>(error),
    }
}

/// Checks a length before it is written or before its bytes are read.
pub fn checked_len(length: usize, maximum: usize, label: Label) -> (result: Result<(), WireError>)
    ensures
        result == (if length > maximum || length > u32::MAX {
            Err::<(), WireError>(WireError::TooLong(label))
        } else {
            Ok::<(), WireError>(())
        }),
{
    if length > maximum || length > 0xffff_ffff {
        return Err(WireError::TooLong(label));
    }
    Ok(())
}

pub fn bounded_len(length: u32, maximum: usize, label: Label) -> (result: Result<usize, WireError>)
    ensures
        result == (if length > maximum {
            Err::<usize, WireError>(WireError::TooLong(label))
        } else {
            Ok::<usize, WireError>(length as usize)
        }),
{
    let length: usize = length as usize;
    checked_len(length, maximum, label)?;
    Ok(length)
}

pub fn write_u32(out: &mut Vec<u8>, value: u32)
    ensures
        final(out)@ == old(out)@ + u32_bytes(value),
{
    proof {
        reveal(u32_bytes);
    }
    out.push((value % 256) as u8);
    out.push((value / 256 % 256) as u8);
    out.push((value / 65536 % 256) as u8);
    out.push((value / 16777216) as u8);
}

pub fn write_u64(out: &mut Vec<u8>, value: u64)
    ensures
        final(out)@ == old(out)@ + u64_bytes(value),
{
    proof {
        reveal(u64_bytes);
    }
    write_u32(out, (value % 4294967296) as u32);
    write_u32(out, (value / 4294967296) as u32);
}

pub fn write_flag(out: &mut Vec<u8>, value: bool)
    ensures
        final(out)@ == old(out)@.push(flag_byte(value)),
{
    out.push(
        if value {
            1
        } else {
            0
        },
    );
}

/// Appends bytes that are already encoded.
pub fn write_bytes(out: &mut Vec<u8>, bytes: &[u8])
    ensures
        final(out)@ == old(out)@ + bytes@,
{
    out.extend_from_slice(bytes);
    assert(out@ =~= old(out)@ + bytes@);
}

/// Appends a text whose length has been checked.
pub fn write_text(out: &mut Vec<u8>, text: &String)
    requires
        utf8::encode_utf8(text@).len() <= u32::MAX,
    ensures
        final(out)@ == old(out)@ + text_bytes(text@),
{
    proof {
        reveal(text_bytes);
    }
    write_blob(out, text.as_str().as_bytes());
}

/// Appends a field whose length has been checked.
pub fn write_blob(out: &mut Vec<u8>, bytes: &[u8])
    requires
        bytes@.len() <= u32::MAX,
    ensures
        final(out)@ == old(out)@ + blob_bytes(bytes@),
{
    proof {
        reveal(blob_bytes);
    }
    write_u32(out, bytes.len() as u32);
    write_bytes(out, bytes);
    assert(out@ =~= old(out)@ + blob_bytes(bytes@));
}

pub fn codec_byte(codec: VideoCodec) -> (byte: u8)
    ensures
        byte == codec_code(codec),
{
    match codec {
        VideoCodec::H264 => 1,
        VideoCodec::H265 => 2,
    }
}

pub fn pixel_format_byte(pixel_format: VideoPixelFormat) -> (byte: u8)
    ensures
        byte == pixel_format_code(pixel_format),
{
    match pixel_format {
        VideoPixelFormat::Yuv420 => 1,
        VideoPixelFormat::Yuv444 => 2,
    }
}

pub fn read_u8(reader: &mut PipeReader) -> (result: Result<u8, WireError>)
    ensures
        reads(final(reader).rest(), result, parse_u8(old(reader).rest())),
{
    let bytes = reader.take(1)?;
    Ok(bytes[0])
}

pub fn read_u32(reader: &mut PipeReader) -> (result: Result<u32, WireError>)
    ensures
        reads(final(reader).rest(), result, parse_u32(old(reader).rest())),
{
    let bytes = reader.take(4)?;
    Ok(
        bytes[0] as u32 + 256 * bytes[1] as u32 + 65536 * bytes[2] as u32 + 16777216
            * bytes[3] as u32,
    )
}

pub fn read_u64(reader: &mut PipeReader) -> (result: Result<u64, WireError>)
    ensures
        reads(final(reader).rest(), result, parse_u64(old(reader).rest())),
{
    if reader.remaining() < 8 {
        return Err(WireError::UnexpectedEnd);
    }
    let low = read_u32(reader)?;
    let high = read_u32(reader)?;
    assert(old(reader).rest().skip(4).skip(4) =~= old(reader).rest().skip(8));
    Ok(low as u64 + 4294967296 * high as u64)
}

pub fn read_bool(reader: &mut PipeReader) -> (result: Result<bool, WireError>)
    ensures
        reads(final(reader).rest(), result, parse_bool(old(reader).rest())),
{
    match read_u8(reader)? {
        0 => Ok(false),
        1 => Ok(true),
        _ => Err(WireError::InvalidBoolean),
    }
}

pub fn read_codec(reader: &mut PipeReader) -> (result: Result<VideoCodec, WireError>)
    ensures
        reads(final(reader).rest(), result, parse_codec(old(reader).rest())),
{
    match read_u8(reader)? {
        1 => Ok(VideoCodec::H264),
        2 => Ok(VideoCodec::H265),
        value => Err(WireError::InvalidCodec(value)),
    }
}

pub fn read_pixel_format(reader: &mut PipeReader) -> (result: Result<VideoPixelFormat, WireError>)
    ensures
        reads(final(reader).rest(), result, parse_pixel_format(old(reader).rest())),
{
    match read_u8(reader)? {
        1 => Ok(VideoPixelFormat::Yuv420),
        2 => Ok(VideoPixelFormat::Yuv444),
        value => Err(WireError::InvalidPixelFormat(value)),
    }
}

/// What reading a field with a view owes.
pub open spec fn reads_view<T: View>(
    after: Seq<u8>,
    result: Result<T, WireError>,
    parsed: Parsed<T::V>,
) -> bool {
    match parsed {
        Ok((value, rest)) => result is Ok && result->Ok_0@ == value && after == rest,
        Err(error) => result == Err::<T, WireError>(error),
    }
}

pub fn read_blob(reader: &mut PipeReader, maximum: usize, label: Label) -> (result: Result<
    Vec<u8>,
    WireError,
>)
    ensures
        reads_view(final(reader).rest(), result, parse_blob(old(reader).rest(), maximum, label)),
{
    proof {
        reveal(parse_blob);
    }
    let length = bounded_len(read_u32(reader)?, maximum, label)?;
    reader.take(length)
}

/// `String::from_utf8`: the text that the bytes encode, or nothing if they are
/// not UTF-8.
#[verifier::external_body]
pub(crate) fn text_from_utf8(bytes: Vec<u8>) -> (text: Option<String>)
    ensures
        text is Some == utf8::valid_utf8(bytes@),
        text matches Some(value) ==> value@ == utf8::decode_utf8(bytes@),
{
    String::from_utf8(bytes).ok()
}

pub fn read_text(reader: &mut PipeReader, maximum: usize, label: Label) -> (result: Result<
    String,
    WireError,
>)
    ensures
        reads_view(final(reader).rest(), result, parse_text(old(reader).rest(), maximum, label)),
{
    proof {
        reveal(parse_text);
    }
    let bytes = read_blob(reader, maximum, label)?;
    match text_from_utf8(bytes) {
        Some(text) => Ok(text),
        None => Err(WireError::NotUtf8),
    }
}

/// How a parse of `s` carries over to `s + more`: a value stays and the bytes
/// after it grow, an error stays, and only an early end is still open.
pub open spec fn carries_over<T>(parsed: Parsed<T>, extended: Parsed<T>, more: Seq<u8>) -> bool {
    match parsed {
        Ok((value, rest)) => extended == Ok::<(T, Seq<u8>), WireError>((value, rest + more)),
        Err(WireError::UnexpectedEnd) => true,
        Err(error) => extended == Err::<(T, Seq<u8>), WireError>(error),
    }
}

/// Concatenation does not depend on how it is bracketed.
pub proof fn lemma_concat(a: Seq<u8>, b: Seq<u8>, c: Seq<u8>)
    ensures
        (a + b) + c == a + (b + c),
{
    assert((a + b) + c =~= a + (b + c));
}

/// Seven fields in a row, and what follows them.
pub proof fn lemma_seven_fields(
    a: Seq<u8>,
    b: Seq<u8>,
    c: Seq<u8>,
    d: Seq<u8>,
    e: Seq<u8>,
    f: Seq<u8>,
    g: Seq<u8>,
    rest: Seq<u8>,
)
    ensures
        a + (b + (c + (d + (e + (f + (g + rest)))))) == (a + b + c + d + e + f + g) + rest,
{
    lemma_concat(a + b + c + d + e + f, g, rest);
    lemma_concat(a + b + c + d + e, f, g + rest);
    lemma_concat(a + b + c + d, e, f + (g + rest));
    lemma_concat(a + b + c, d, e + (f + (g + rest)));
    lemma_concat(a + b, c, d + (e + (f + (g + rest))));
    lemma_concat(a, b, c + (d + (e + (f + (g + rest)))));
}

/// A four-byte integer is read back as it was written, with what follows it.
pub proof fn lemma_u32(value: u32, rest: Seq<u8>)
    ensures
        u32_bytes(value).len() == 4,
        parse_u32(u32_bytes(value) + rest) == Ok::<(u32, Seq<u8>), WireError>((value, rest)),
{
    reveal(u32_bytes);
    let s = u32_bytes(value) + rest;
    assert(value == value % 256 + 256 * (value / 256 % 256) + 65536 * (value / 65536 % 256)
        + 16777216 * (value / 16777216));
    assert(s.skip(4) =~= rest);
}

/// Four bytes are the encoding of what is read from them.
pub proof fn lemma_u32_canonical(s: Seq<u8>)
    requires
        s.len() >= 4,
    ensures
        s == u32_bytes(u32_of(s)) + s.skip(4),
{
    reveal(u32_bytes);
    let value = u32_of(s);
    assert(value % 256 == s[0] && value / 256 % 256 == s[1] && value / 65536 % 256 == s[2] && value
        / 16777216 == s[3]);
    assert(s =~= u32_bytes(value) + s.skip(4));
}

pub proof fn lemma_u32_carries_over(s: Seq<u8>, more: Seq<u8>)
    ensures
        carries_over(parse_u32(s), parse_u32(s + more), more),
{
    if s.len() >= 4 {
        assert((s + more).skip(4) =~= s.skip(4) + more);
    }
}

/// An eight-byte integer is read back as it was written, with what follows it.
pub proof fn lemma_u64(value: u64, rest: Seq<u8>)
    ensures
        u64_bytes(value).len() == 8,
        parse_u64(u64_bytes(value) + rest) == Ok::<(u64, Seq<u8>), WireError>((value, rest)),
{
    reveal(u64_bytes);
    let low = (value % 4294967296) as u32;
    let high = (value / 4294967296) as u32;
    let s = u64_bytes(value) + rest;
    assert(s =~= u32_bytes(low) + (u32_bytes(high) + rest));
    lemma_u32(low, u32_bytes(high) + rest);
    lemma_u32(high, rest);
    assert(s.skip(4) =~= u32_bytes(high) + rest);
    assert(s.skip(8) =~= rest);
}

/// Eight bytes are the encoding of what is read from them.
pub proof fn lemma_u64_canonical(s: Seq<u8>)
    requires
        s.len() >= 8,
    ensures
        s == u64_bytes(u64_of(s)) + s.skip(8),
{
    reveal(u64_bytes);
    lemma_u32_canonical(s);
    lemma_u32_canonical(s.skip(4));
    let value = u64_of(s);
    assert((value % 4294967296) as u32 == u32_of(s));
    assert((value / 4294967296) as u32 == u32_of(s.skip(4)));
    assert(s.skip(4).skip(4) =~= s.skip(8));
    assert(s =~= u64_bytes(value) + s.skip(8));
}

pub proof fn lemma_u64_carries_over(s: Seq<u8>, more: Seq<u8>)
    ensures
        carries_over(parse_u64(s), parse_u64(s + more), more),
{
    if s.len() >= 8 {
        assert((s + more).skip(8) =~= s.skip(8) + more);
        assert((s + more).skip(4) =~= s.skip(4) + more);
    }
}

pub proof fn lemma_u8_carries_over(s: Seq<u8>, more: Seq<u8>)
    ensures
        carries_over(parse_u8(s), parse_u8(s + more), more),
{
    if s.len() >= 1 {
        assert((s + more).skip(1) =~= s.skip(1) + more);
    }
}

/// One byte is read back as it was written, with what follows it.
pub proof fn lemma_u8(value: u8, rest: Seq<u8>)
    ensures
        parse_u8(seq![value] + rest) == Ok::<(u8, Seq<u8>), WireError>((value, rest)),
{
    assert((seq![value] + rest).skip(1) =~= rest);
}

pub proof fn lemma_u8_canonical(s: Seq<u8>)
    requires
        s.len() >= 1,
    ensures
        s == seq![s[0]] + s.skip(1),
{
    assert(s =~= seq![s[0]] + s.skip(1));
}

/// A variable-length field within its limit is read back as it was written.
pub proof fn lemma_blob(blob: Seq<u8>, rest: Seq<u8>, maximum: usize, label: Label)
    requires
        blob.len() <= maximum,
        blob.len() <= u32::MAX,
    ensures
        parse_blob(blob_bytes(blob) + rest, maximum, label) == Ok::<(Seq<u8>, Seq<u8>), WireError>(
            (blob, rest),
        ),
{
    reveal(blob_bytes);
    reveal(parse_blob);
    assert(blob_bytes(blob) + rest =~= u32_bytes(blob.len() as u32) + (blob + rest));
    lemma_u32(blob.len() as u32, blob + rest);
    assert((blob + rest).take(blob.len() as int) =~= blob);
    assert((blob + rest).skip(blob.len() as int) =~= rest);
}

/// A field that is read is within its limit, and its bytes are its encoding.
pub proof fn lemma_blob_canonical(s: Seq<u8>, maximum: usize, label: Label)
    requires
        parse_blob(s, maximum, label) is Ok,
    ensures
        ({
            let (blob, rest) = parse_blob(s, maximum, label)->Ok_0;
            s == blob_bytes(blob) + rest && blob.len() <= maximum && blob.len() <= u32::MAX
        }),
{
    reveal(blob_bytes);
    reveal(parse_blob);
    lemma_u32_canonical(s);
    let (blob, rest) = parse_blob(s, maximum, label)->Ok_0;
    assert(s.skip(4) =~= blob + rest);
    assert(s =~= blob_bytes(blob) + rest);
}

pub proof fn lemma_blob_carries_over(s: Seq<u8>, more: Seq<u8>, maximum: usize, label: Label)
    ensures
        carries_over(parse_blob(s, maximum, label), parse_blob(s + more, maximum, label), more),
{
    reveal(parse_blob);
    lemma_u32_carries_over(s, more);
    if let Ok((length, rest)) = parse_length(s, maximum, label) {
        if rest.len() >= length {
            assert((rest + more).take(length as int) =~= rest.take(length as int));
            assert((rest + more).skip(length as int) =~= rest.skip(length as int) + more);
        }
    }
}

/// A text field within its limit is read back as it was written.
pub proof fn lemma_text(text: Seq<char>, rest: Seq<u8>, maximum: usize, label: Label)
    requires
        utf8::encode_utf8(text).len() <= maximum,
        utf8::encode_utf8(text).len() <= u32::MAX,
    ensures
        parse_text(text_bytes(text) + rest, maximum, label) == Ok::<
            (Seq<char>, Seq<u8>),
            WireError,
        >((text, rest)),
{
    reveal(text_bytes);
    reveal(parse_text);
    lemma_blob(utf8::encode_utf8(text), rest, maximum, label);
    vstd::utf8::encode_utf8_valid_utf8(text);
    vstd::utf8::encode_utf8_decode_utf8(text);
}

/// A text that is read is within its limit, and its bytes are its encoding.
pub proof fn lemma_text_canonical(s: Seq<u8>, maximum: usize, label: Label)
    requires
        parse_text(s, maximum, label) is Ok,
    ensures
        ({
            let (text, rest) = parse_text(s, maximum, label)->Ok_0;
            s == text_bytes(text) + rest && utf8::encode_utf8(text).len() <= maximum && utf8::encode_utf8(
                text,
            ).len() <= u32::MAX
        }),
{
    reveal(text_bytes);
    reveal(parse_text);
    lemma_blob_canonical(s, maximum, label);
    let (blob, rest) = parse_blob(s, maximum, label)->Ok_0;
    vstd::utf8::decode_utf8_encode_utf8(blob);
}

pub proof fn lemma_text_carries_over(s: Seq<u8>, more: Seq<u8>, maximum: usize, label: Label)
    ensures
        carries_over(parse_text(s, maximum, label), parse_text(s + more, maximum, label), more),
{
    reveal(parse_text);
    lemma_blob_carries_over(s, more, maximum, label);
}

/// A number is written with its lowest byte first, whole: no two numbers have the
/// same bytes.
pub proof fn numbers_begin_with_their_lowest_byte(value: u32, large: u64)
    ensures
        u32_bytes(value).len() == 4,
        u32_bytes(value)[0] == value % 256,
        u32_bytes(value)[1] == value / 256 % 256,
        u32_bytes(value)[2] == value / 65536 % 256,
        u32_bytes(value)[3] == value / 16777216,
        u64_bytes(large).len() == 8,
        u64_bytes(large).take(4) == u32_bytes((large % 0x1_0000_0000) as u32),
        u64_bytes(large).skip(4) == u32_bytes((large / 0x1_0000_0000) as u32),
{
    reveal(u32_bytes);
    reveal(u64_bytes);
    assert(u64_bytes(large).take(4) =~= u32_bytes((large % 0x1_0000_0000) as u32));
    assert(u64_bytes(large).skip(4) =~= u32_bytes((large / 0x1_0000_0000) as u32));
}

/// Numbers are read from the lowest byte on, and one that is cut short is not read.
pub proof fn numbers_are_read_from_their_lowest_byte(s: Seq<u8>)
    ensures
        parse_u32(s) is Ok <==> s.len() >= 4,
        parse_u32(s) matches Ok((value, rest)) ==> value == s[0] + 0x100 * s[1] + 0x1_0000 * s[2]
            + 0x100_0000 * s[3] && rest == s.skip(4),
        parse_u32(s) matches Err(error) ==> error == WireError::UnexpectedEnd,
        parse_u64(s) is Ok <==> s.len() >= 8,
        parse_u64(s) matches Ok((value, rest)) ==> value == parse_u32(s)->Ok_0.0 + 0x1_0000_0000
            * parse_u32(s.skip(4))->Ok_0.0 && rest == s.skip(8),
        parse_u64(s) matches Err(error) ==> error == WireError::UnexpectedEnd,
        parse_u8(s) is Ok <==> s.len() >= 1,
        parse_u8(s) matches Ok((value, rest)) ==> value == s[0] && rest == s.skip(1),
{
}

/// A flag is one byte, one for yes and nought for no; no other byte is a flag.
pub proof fn flags_are_one_or_nought(value: bool, s: Seq<u8>, refusal: spec_fn(u8) -> WireError)
    ensures
        flag_byte(true) == 1,
        flag_byte(false) == 0,
        s.len() == 0 ==> parse_flag(s, refusal) == Err::<(bool, Seq<u8>), WireError>(
            WireError::UnexpectedEnd,
        ),
        s.len() > 0 && s[0] == 0 ==> parse_flag(s, refusal) == Ok::<(bool, Seq<u8>), WireError>(
            (false, s.skip(1)),
        ),
        s.len() > 0 && s[0] == 1 ==> parse_flag(s, refusal) == Ok::<(bool, Seq<u8>), WireError>(
            (true, s.skip(1)),
        ),
        s.len() > 0 && s[0] > 1 ==> parse_flag(s, refusal) == Err::<(bool, Seq<u8>), WireError>(
            refusal(s[0]),
        ),
{
}

/// Codecs and pixel formats have the numbers one and two; any other byte is
/// refused by its number.
pub proof fn codecs_and_formats_have_numbers(s: Seq<u8>)
    requires
        s.len() > 0,
    ensures
        codec_code(VideoCodec::H264) == 1,
        codec_code(VideoCodec::H265) == 2,
        pixel_format_code(VideoPixelFormat::Yuv420) == 1,
        pixel_format_code(VideoPixelFormat::Yuv444) == 2,
        parse_codec(s) is Ok <==> s[0] == 1 || s[0] == 2,
        parse_codec(s) matches Ok((codec, rest)) ==> codec_code(codec) == s[0] && rest == s.skip(1),
        parse_codec(s) matches Err(error) ==> error == WireError::InvalidCodec(s[0]),
        parse_pixel_format(s) is Ok <==> s[0] == 1 || s[0] == 2,
        parse_pixel_format(s) matches Ok((format, rest)) ==> pixel_format_code(format) == s[0]
            && rest == s.skip(1),
        parse_pixel_format(s) matches Err(error) ==> error == WireError::InvalidPixelFormat(s[0]),
{
}

/// A field of changing length begins with its length, and is read only if that is
/// no more than it may be, and all of it is there.
pub proof fn fields_begin_with_their_length(
    blob: Seq<u8>,
    s: Seq<u8>,
    maximum: usize,
    label: Label,
)
    requires
        blob.len() <= u32::MAX,
    ensures
        blob_bytes(blob).take(4) == u32_bytes(blob.len() as u32),
        blob_bytes(blob).skip(4) == blob,
        s.len() >= 4 && parse_u32(s)->Ok_0.0 > maximum ==> parse_blob(s, maximum, label) == Err::<
            (Seq<u8>, Seq<u8>),
            WireError,
        >(WireError::TooLong(label)),
        parse_blob(s, maximum, label) matches Ok((read, rest)) ==> read.len() <= maximum && s.skip(4)
            == read + rest && read.len() == parse_u32(s)->Ok_0.0,
        parse_blob(s, maximum, label) is Ok <==> s.len() >= 4 && parse_u32(s)->Ok_0.0 <= maximum
            && s.len() >= 4 + parse_u32(s)->Ok_0.0,
{
    reveal(u32_bytes);
    reveal(blob_bytes);
    reveal(parse_blob);
    assert(blob_bytes(blob).take(4) =~= u32_bytes(blob.len() as u32));
    assert(blob_bytes(blob).skip(4) =~= blob);
    if let Ok((read, rest)) = parse_blob(s, maximum, label) {
        assert(s.skip(4) =~= read + rest);
    }
}

/// An early end is one, whatever was read; what files and credentials hold is
/// judged by others, and all else that is wrong is wrong data.
pub proof fn errors_have_their_kinds(error: WireError)
    ensures
        error.kind_of() == ErrorKind::UnexpectedEof <==> error == WireError::UnexpectedEnd,
        error.kind_of() == ErrorKind::Other <==> error == WireError::InvalidCredentialPromptState
            || error == WireError::NotFileTransfer || error == WireError::Undecodable(
            Label::FileTransfer,
        ) || error == WireError::Undecodable(Label::CredentialResult),
{
}

/// A field is called by what it holds.
pub proof fn fields_have_their_names(label: Label)
    ensures
        label == Label::ViewerName ==> label.text_of() == "viewer name"@,
        label == Label::ProtectedCredentials ==> label.text_of() == "protected credentials"@,
        label == Label::FileTransfer ==> label.text_of() == "file transfer"@,
        label == Label::DesktopInput ==> label.text_of() == "desktop input"@,
        label == Label::BlackoutMessage ==> label.text_of() == "blackout message"@,
        label == Label::DesktopClipboard ==> label.text_of() == "desktop clipboard"@,
        label == Label::ClipboardContent ==> label.text_of() == "clipboard content"@,
        label == Label::ChatText ==> label.text_of() == "chat text"@,
        label == Label::CredentialResult ==> label.text_of() == "credential result"@,
        label == Label::DisplayList ==> label.text_of() == "display list"@,
        label == Label::DisplayCount ==> label.text_of() == "display count"@,
        label == Label::DisplayName ==> label.text_of() == "display name"@,
        label == Label::MaintenanceError ==> label.text_of() == "maintenance error"@,
        label == Label::CodecConfiguration ==> label.text_of() == "codec configuration"@,
        label == Label::EncodedFrame ==> label.text_of() == "encoded frame"@,
        label == Label::CursorShape ==> label.text_of() == "cursor shape"@,
        label == Label::DesktopHelperError ==> label.text_of() == "desktop-helper error"@,
{
}

/// Every error that this library words has words of its own.
pub proof fn wire_errors_have_their_words(error: WireError)
    ensures
        error == WireError::UnexpectedEnd ==> error.text_of() is None,
        error == WireError::NotUtf8 ==> error.text_of() is None,
        error matches WireError::Undecodable(_) ==> error.text_of() is None,
        error matches WireError::TooLong(label) ==> error.text_of()
            == Some(label.text_of() + " exceeds the IPC size limit"@),
        error matches WireError::UnknownCommand(value) ==> error.text_of()
            == Some("unknown desktop-helper command opcode "@ + text::decimal(value as nat)),
        error matches WireError::UnknownEvent(value) ==> error.text_of()
            == Some("unknown desktop-helper event opcode "@ + text::decimal(value as nat)),
        error matches WireError::InvalidKeyframeFlag(value) ==> error.text_of()
            == Some("invalid keyframe flag "@ + text::decimal(value as nat)),
        error matches WireError::InvalidPrimaryFlag(value) ==> error.text_of()
            == Some("invalid display primary flag "@ + text::decimal(value as nat)),
        error matches WireError::InvalidCodec(value) ==> error.text_of()
            == Some("invalid desktop-helper codec "@ + text::decimal(value as nat)),
        error matches WireError::InvalidPixelFormat(value) ==> error.text_of()
            == Some("invalid desktop-helper pixel format "@ + text::decimal(value as nat)),
        error == WireError::InvalidBoolean ==> error.text_of() == Some("invalid boolean"@),
        error == WireError::InvalidBlackoutFlag ==> error.text_of()
            == Some("invalid blackout flag"@),
        error == WireError::InvalidInputBlockFlag ==> error.text_of()
            == Some("invalid input block flag"@),
        error == WireError::InvalidMaintenanceState ==> error.text_of()
            == Some("invalid maintenance state"@),
        error == WireError::InvalidCredentialPromptState ==> error.text_of()
            == Some("invalid credential prompt state"@),
        error == WireError::UnknownActiveDisplay ==> error.text_of()
            == Some("desktop helper selected an unknown display"@),
        error == WireError::InvalidChatText ==> error.text_of() == Some("invalid chat text"@),
        error == WireError::NotInput ==> error.text_of()
            == Some("desktop input contained a non-input message"@),
        error == WireError::NotCursor ==> error.text_of()
            == Some("cursor event contained an unexpected message"@),
        error == WireError::NotFileTransfer ==> error.text_of()
            == Some("invalid file transfer packet"@),
{
}

/// A read gives the value that is there and stands right behind it, or gives the
/// error, and nothing else.
pub proof fn reads_give_what_is_there<T>(
    after: Seq<u8>,
    result: Result<T, WireError>,
    value: T,
    rest: Seq<u8>,
    error: WireError,
)
    ensures
        reads(after, result, Ok((value, rest))) <==> result == Ok::<T, WireError>(value) && after
            == rest,
        reads(after, result, Err(error)) <==> result == Err::<T, WireError>(error),
{
}

} // verus!
