//! Commands from the session coordinator to a desktop helper, and their frames.
//!
//! A frame is an opcode byte and the fields of that command. Input, clipboard
//! and file payloads travel as the viewer protocol encodes them.
use crate::model::{DisplayId, Protocol, StreamConfig};
use crate::wire;
use crate::wire::{
    checked_len, codec_byte, pixel_format_byte, read_blob, read_bool, read_codec, read_pixel_format,
    read_text, read_u32, read_u8, write_blob, write_flag, write_text, write_u32, Label, PipeReader, WireError,
    MAX_CONTROL_BYTES, MAX_DISPLAY_NAME_BYTES, MAX_PROTECTED_CREDENTIAL_BYTES, NO_DISPLAY,
};
use vstd::prelude::*;
use vstd::utf8;

verus! {

#[derive(Debug)]
#[allow(inconsistent_fields)]
pub enum ParentCommand {
    PromptCredentials,
    AutofillCredentials(Vec<u8>),
    EnumerateDisplays,
    StartFiles,
    StartClipboard,
    StartChatHelper { viewer_name: String },
    Files(Vec<u8>),
    Start { viewer_name: String, display_id: Option<DisplayId>, config: StreamConfig },
    RequestKeyframe,
    SetBitrate(u32),
    SetCursorCapture(bool),
    SetDisplayBorder(bool),
    SetWallpaperHidden(bool),
    SetPreventIdleLock(bool),
    StartInput { viewer_name: String, display_id: DisplayId },
    Input(Vec<u8>),
    ReleaseInput,
    BlockInput(bool),
    Blackout { enabled: bool, text: String },
    Clipboard(Vec<u8>),
    Chat(String),
    StartChat,
    StopChat,
    Stop,
}

#[allow(inconsistent_fields)]
pub enum CommandView {
    PromptCredentials,
    AutofillCredentials(Seq<u8>),
    EnumerateDisplays,
    StartFiles,
    StartClipboard,
    StartChatHelper { viewer_name: Seq<char> },
    Files(Seq<u8>),
    Start { viewer_name: Seq<char>, display_id: Option<DisplayId>, config: StreamConfig },
    RequestKeyframe,
    SetBitrate(u32),
    SetCursorCapture(bool),
    SetDisplayBorder(bool),
    SetWallpaperHidden(bool),
    SetPreventIdleLock(bool),
    StartInput { viewer_name: Seq<char>, display_id: DisplayId },
    Input(Seq<u8>),
    ReleaseInput,
    BlockInput(bool),
    Blackout { enabled: bool, text: Seq<char> },
    Clipboard(Seq<u8>),
    Chat(Seq<char>),
    StartChat,
    StopChat,
    Stop,
}

impl View for ParentCommand {
    type V = CommandView;

    open spec fn view(&self) -> CommandView {
        match *self {
            ParentCommand::PromptCredentials => CommandView::PromptCredentials,
            ParentCommand::AutofillCredentials(bytes) => CommandView::AutofillCredentials(bytes@),
            ParentCommand::EnumerateDisplays => CommandView::EnumerateDisplays,
            ParentCommand::StartFiles => CommandView::StartFiles,
            ParentCommand::StartClipboard => CommandView::StartClipboard,
            ParentCommand::StartChatHelper { viewer_name } => CommandView::StartChatHelper {
                viewer_name: viewer_name@,
            },
            ParentCommand::Files(bytes) => CommandView::Files(bytes@),
            ParentCommand::Start { viewer_name, display_id, config } => CommandView::Start {
                viewer_name: viewer_name@,
                display_id,
                config,
            },
            ParentCommand::RequestKeyframe => CommandView::RequestKeyframe,
            ParentCommand::SetBitrate(bits) => CommandView::SetBitrate(bits),
            ParentCommand::SetCursorCapture(flag) => CommandView::SetCursorCapture(flag),
            ParentCommand::SetDisplayBorder(flag) => CommandView::SetDisplayBorder(flag),
            ParentCommand::SetWallpaperHidden(flag) => CommandView::SetWallpaperHidden(flag),
            ParentCommand::SetPreventIdleLock(flag) => CommandView::SetPreventIdleLock(flag),
            ParentCommand::StartInput { viewer_name, display_id } => CommandView::StartInput {
                viewer_name: viewer_name@,
                display_id,
            },
            ParentCommand::Input(bytes) => CommandView::Input(bytes@),
            ParentCommand::ReleaseInput => CommandView::ReleaseInput,
            ParentCommand::BlockInput(flag) => CommandView::BlockInput(flag),
            ParentCommand::Blackout { enabled, text } => CommandView::Blackout {
                enabled,
                text: text@,
            },
            ParentCommand::Clipboard(bytes) => CommandView::Clipboard(bytes@),
            ParentCommand::Chat(text) => CommandView::Chat(text@),
            ParentCommand::StartChat => CommandView::StartChat,
            ParentCommand::StopChat => CommandView::StopChat,
            ParentCommand::Stop => CommandView::Stop,
        }
    }
}

/// The byte that starts a command's frame.
pub open spec fn command_opcode(command: CommandView) -> u8 {
    match command {
        CommandView::Start { .. } => 1,
        CommandView::RequestKeyframe => 2,
        CommandView::SetBitrate(_) => 3,
        CommandView::Stop => 4,
        CommandView::Input(_) => 5,
        CommandView::ReleaseInput => 6,
        CommandView::StartInput { .. } => 7,
        CommandView::Clipboard(_) => 8,
        CommandView::Chat(_) => 9,
        CommandView::StartChat => 10,
        CommandView::StopChat => 11,
        CommandView::Files(_) => 12,
        CommandView::StartFiles => 13,
        CommandView::BlockInput(_) => 14,
        CommandView::Blackout { .. } => 15,
        CommandView::StartClipboard => 16,
        CommandView::StartChatHelper { .. } => 17,
        CommandView::SetCursorCapture(_) => 18,
        CommandView::SetWallpaperHidden(_) => 19,
        CommandView::SetDisplayBorder(_) => 20,
        CommandView::SetPreventIdleLock(_) => 21,
        CommandView::EnumerateDisplays => 22,
        CommandView::PromptCredentials => 23,
        CommandView::AutofillCredentials(_) => 24,
    }
}

pub open spec fn display_code(display_id: Option<DisplayId>) -> u32 {
    match display_id {
        Some(id) => id.0,
        None => NO_DISPLAY,
    }
}

pub open spec fn display_of(code: u32) -> Option<DisplayId> {
    if code == NO_DISPLAY {
        None
    } else {
        Some(DisplayId(code))
    }
}

pub open spec fn config_bytes(config: StreamConfig) -> Seq<u8> {
    wire::u32_bytes(config.frames_per_second) + wire::u32_bytes(config.bitrate_bits_per_second) + seq![
        wire::codec_code(config.codec),
        wire::pixel_format_code(config.pixel_format),
        wire::flag_byte(config.capture_cursor),
        wire::flag_byte(config.grayscale),
    ]
}

/// The fields that follow a command's opcode.
pub open spec fn command_fields(command: CommandView) -> Seq<u8> {
    match command {
        CommandView::AutofillCredentials(bytes) => wire::blob_bytes(bytes),
        CommandView::StartChatHelper { viewer_name } => wire::text_bytes(viewer_name),
        CommandView::Files(bytes) => wire::blob_bytes(bytes),
        CommandView::Start { viewer_name, display_id, config } => wire::text_bytes(viewer_name)
            + wire::u32_bytes(display_code(display_id)) + config_bytes(config),
        CommandView::SetBitrate(bits) => wire::u32_bytes(bits),
        CommandView::SetCursorCapture(flag) => seq![wire::flag_byte(flag)],
        CommandView::SetDisplayBorder(flag) => seq![wire::flag_byte(flag)],
        CommandView::SetWallpaperHidden(flag) => seq![wire::flag_byte(flag)],
        CommandView::SetPreventIdleLock(flag) => seq![wire::flag_byte(flag)],
        CommandView::StartInput { viewer_name, display_id } => wire::u32_bytes(display_id.0) + wire::text_bytes(
            viewer_name,
        ),
        CommandView::Input(bytes) => wire::blob_bytes(bytes),
        CommandView::BlockInput(flag) => seq![wire::flag_byte(flag)],
        CommandView::Blackout { enabled, text } => seq![wire::flag_byte(enabled)] + wire::text_bytes(text),
        CommandView::Clipboard(bytes) => wire::blob_bytes(bytes),
        CommandView::Chat(text) => wire::text_bytes(text),
        _ => seq![],
    }
}

/// A command's frame.
pub open spec fn command_bytes(command: CommandView) -> Seq<u8> {
    seq![command_opcode(command)] + command_fields(command)
}

pub open spec fn too_long(length: nat, maximum: usize, label: Label) -> Option<WireError> {
    if length > maximum || length > u32::MAX {
        Some(WireError::TooLong(label))
    } else {
        None
    }
}

/// Why a chat text is not written, if it is not: a text over the limit is not
/// valid, whatever else is said of it.
pub open spec fn chat_refusal(text: Seq<char>, protocol: Protocol, chat_valid: bool) -> Option<
    WireError,
> {
    if chat_valid && too_long(
        utf8::encode_utf8(text).len(),
        protocol.chat_text_bytes,
        Label::ChatText,
    ) is None {
        None
    } else {
        Some(WireError::InvalidChatText)
    }
}

/// Checks a chat text before it is written.
pub fn check_chat(text: &str, protocol: &Protocol, chat_valid: bool) -> (result: Result<
    (),
    WireError,
>)
    ensures
        match chat_refusal(text@, *protocol, chat_valid) {
            Some(error) => result == Err::<(), WireError>(error),
            None => result is Ok,
        },
{
    if chat_valid && checked_len(
        text.as_bytes().len(),
        protocol.chat_text_bytes,
        Label::ChatText,
    ).is_ok() {
        Ok(())
    } else {
        Err(WireError::InvalidChatText)
    }
}

/// Why a command is not written, if it is not.
pub open spec fn command_refusal(
    command: CommandView,
    protocol: Protocol,
    chat_valid: bool,
) -> Option<WireError> {
    match command {
        CommandView::AutofillCredentials(bytes) => too_long(
            bytes.len(),
            MAX_PROTECTED_CREDENTIAL_BYTES,
            Label::ProtectedCredentials,
        ),
        CommandView::StartChatHelper { viewer_name } => too_long(
            utf8::encode_utf8(viewer_name).len(),
            MAX_CONTROL_BYTES,
            Label::ViewerName,
        ),
        CommandView::Files(bytes) => too_long(bytes.len(), MAX_CONTROL_BYTES, Label::FileTransfer),
        CommandView::Start { viewer_name, .. } => too_long(
            utf8::encode_utf8(viewer_name).len(),
            MAX_DISPLAY_NAME_BYTES,
            Label::ViewerName,
        ),
        CommandView::StartInput { viewer_name, .. } => too_long(
            utf8::encode_utf8(viewer_name).len(),
            MAX_DISPLAY_NAME_BYTES,
            Label::ViewerName,
        ),
        CommandView::Input(bytes) => too_long(bytes.len(), MAX_CONTROL_BYTES, Label::DesktopInput),
        CommandView::Blackout { text, .. } => too_long(
            utf8::encode_utf8(text).len(),
            MAX_CONTROL_BYTES,
            Label::BlackoutMessage,
        ),
        CommandView::Clipboard(bytes) => too_long(
            bytes.len(),
            protocol.clipboard_wire_bytes,
            Label::DesktopClipboard,
        ),
        CommandView::Chat(text) => chat_refusal(text, protocol, chat_valid),
        _ => None,
    }
}

/// What a refused command leaves on the pipe: two commands are checked only
/// after their opcode.
pub open spec fn refused_bytes(command: CommandView) -> Seq<u8> {
    match command {
        CommandView::Start { .. } => seq![command_opcode(command)],
        CommandView::Files(_) => seq![command_opcode(command)],
        _ => seq![],
    }
}

fn check_text(text: &String, maximum: usize, label: Label) -> (result: Result<(), WireError>)
    ensures
        match too_long(utf8::encode_utf8(text@).len(), maximum, label) {
            Some(error) => result == Err::<(), WireError>(error),
            None => result is Ok,
        },
{
    checked_len(text.as_str().as_bytes().len(), maximum, label)
}

fn write_config(out: &mut Vec<u8>, config: &StreamConfig)
    ensures
        final(out)@ == old(out)@ + config_bytes(*config),
{
    write_u32(out, config.frames_per_second);
    write_u32(out, config.bitrate_bits_per_second);
    out.push(codec_byte(config.codec));
    out.push(pixel_format_byte(config.pixel_format));
    write_flag(out, config.capture_cursor);
    write_flag(out, config.grayscale);
    assert(out@ =~= old(out)@ + config_bytes(*config));
}

fn write_flag_command(out: &mut Vec<u8>, opcode: u8, flag: bool)
    ensures
        final(out)@ == old(out)@ + (seq![opcode] + seq![wire::flag_byte(flag)]),
{
    out.push(opcode);
    write_flag(out, flag);
    assert(out@ =~= old(out)@ + (seq![opcode] + seq![wire::flag_byte(flag)]));
}

fn write_blob_command(out: &mut Vec<u8>, opcode: u8, bytes: &[u8])
    requires
        bytes@.len() <= u32::MAX,
    ensures
        final(out)@ == old(out)@ + (seq![opcode] + wire::blob_bytes(bytes@)),
{
    out.push(opcode);
    write_blob(out, bytes);
    assert(out@ =~= old(out)@ + (seq![opcode] + wire::blob_bytes(bytes@)));
}

fn write_text_command(out: &mut Vec<u8>, opcode: u8, text: &String)
    requires
        utf8::encode_utf8(text@).len() <= u32::MAX,
    ensures
        final(out)@ == old(out)@ + (seq![opcode] + wire::text_bytes(text@)),
{
    out.push(opcode);
    write_text(out, text);
    assert(out@ =~= old(out)@ + (seq![opcode] + wire::text_bytes(text@)));
}

fn write_bare_command(out: &mut Vec<u8>, opcode: u8)
    ensures
        final(out)@ == old(out)@ + (seq![opcode] + Seq::<u8>::empty()),
{
    out.push(opcode);
    assert(out@ =~= old(out)@ + (seq![opcode] + Seq::<u8>::empty()));
}

/// Appends a command's frame. `chat_valid` is the viewer protocol's judgement
/// of a chat text within its limit; it matters for no other command.
pub fn write_command(
    out: &mut Vec<u8>,
    command: &ParentCommand,
    protocol: &Protocol,
    chat_valid: bool,
) -> (result: Result<(), WireError>)
    ensures
        match command_refusal(command@, *protocol, chat_valid) {
            None => result is Ok && final(out)@ == old(out)@ + command_bytes(command@),
            Some(error) => result == Err::<(), WireError>(error) && final(out)@ == old(out)@
                + refused_bytes(command@),
        },
{
    proof {
        assert(old(out)@ + Seq::<u8>::empty() =~= old(out)@);
    }
    match command {
        ParentCommand::PromptCredentials => write_bare_command(out, 23),
        ParentCommand::AutofillCredentials(bytes) => {
            checked_len(
                bytes.len(),
                MAX_PROTECTED_CREDENTIAL_BYTES,
                Label::ProtectedCredentials,
            )?;
            write_blob_command(out, 24, bytes.as_slice());
        },
        ParentCommand::EnumerateDisplays => write_bare_command(out, 22),
        ParentCommand::StartFiles => write_bare_command(out, 13),
        ParentCommand::StartClipboard => write_bare_command(out, 16),
        ParentCommand::StartChatHelper { viewer_name } => {
            check_text(viewer_name, MAX_CONTROL_BYTES, Label::ViewerName)?;
            write_text_command(out, 17, viewer_name);
        },
        ParentCommand::Files(bytes) => {
            out.push(12);
            assert(out@ =~= old(out)@ + seq![12u8]);
            checked_len(bytes.len(), MAX_CONTROL_BYTES, Label::FileTransfer)?;
            write_blob(out, bytes.as_slice());
            assert(out@ =~= old(out)@ + command_bytes(command@));
        },
        ParentCommand::Start { viewer_name, display_id, config } => {
            out.push(1);
            assert(out@ =~= old(out)@ + seq![1u8]);
            check_text(viewer_name, MAX_DISPLAY_NAME_BYTES, Label::ViewerName)?;
            write_text(out, viewer_name);
            write_u32(
                out,
                match display_id {
                    Some(id) => id.0,
                    None => NO_DISPLAY,
                },
            );
            write_config(out, config);
            assert(out@ =~= old(out)@ + command_bytes(command@));
        },
        ParentCommand::SetWallpaperHidden(hidden) => write_flag_command(out, 19, *hidden),
        ParentCommand::SetPreventIdleLock(enabled) => write_flag_command(out, 21, *enabled),
        ParentCommand::SetCursorCapture(enabled) => write_flag_command(out, 18, *enabled),
        ParentCommand::SetDisplayBorder(enabled) => write_flag_command(out, 20, *enabled),
        ParentCommand::RequestKeyframe => write_bare_command(out, 2),
        ParentCommand::SetBitrate(bits_per_second) => {
            out.push(3);
            write_u32(out, *bits_per_second);
            assert(out@ =~= old(out)@ + command_bytes(command@));
        },
        ParentCommand::StartInput { viewer_name, display_id } => {
            check_text(viewer_name, MAX_DISPLAY_NAME_BYTES, Label::ViewerName)?;
            out.push(7);
            write_u32(out, display_id.0);
            write_text(out, viewer_name);
            assert(out@ =~= old(out)@ + command_bytes(command@));
        },
        ParentCommand::Input(bytes) => {
            checked_len(bytes.len(), MAX_CONTROL_BYTES, Label::DesktopInput)?;
            write_blob_command(out, 5, bytes.as_slice());
        },
        ParentCommand::Blackout { enabled, text } => {
            check_text(text, MAX_CONTROL_BYTES, Label::BlackoutMessage)?;
            out.push(15);
            write_flag(out, *enabled);
            write_text(out, text);
            assert(out@ =~= old(out)@ + command_bytes(command@));
        },
        ParentCommand::BlockInput(blocked) => write_flag_command(out, 14, *blocked),
        ParentCommand::ReleaseInput => write_bare_command(out, 6),
        ParentCommand::Clipboard(bytes) => {
            checked_len(bytes.len(), protocol.clipboard_wire_bytes, Label::DesktopClipboard)?;
            write_blob_command(out, 8, bytes.as_slice());
        },
        ParentCommand::StopChat => write_bare_command(out, 11),
        ParentCommand::StartChat => write_bare_command(out, 10),
        ParentCommand::Chat(text) => {
            check_chat(text.as_str(), protocol, chat_valid)?;
            write_text_command(out, 9, text);
        },
        ParentCommand::Stop => write_bare_command(out, 4),
    }
    Ok(())
}

/// Applies `wrap` to a parsed field: a command that holds nothing else.
pub open spec fn parse_as<T, U>(parsed: wire::Parsed<T>, wrap: spec_fn(T) -> U) -> wire::Parsed<U> {
    match parsed {
        Ok((value, rest)) => Ok((wrap(value), rest)),
        Err(error) => Err(error),
    }
}

pub open spec fn parse_config(s: Seq<u8>) -> wire::Parsed<StreamConfig> {
    match wire::parse_u32(s) {
        Err(error) => Err(error),
        Ok((frames_per_second, s)) => match wire::parse_u32(s) {
            Err(error) => Err(error),
            Ok((bitrate_bits_per_second, s)) => match wire::parse_codec(s) {
                Err(error) => Err(error),
                Ok((codec, s)) => match wire::parse_pixel_format(s) {
                    Err(error) => Err(error),
                    Ok((pixel_format, s)) => match wire::parse_bool(s) {
                        Err(error) => Err(error),
                        Ok((capture_cursor, s)) => match wire::parse_bool(s) {
                            Err(error) => Err(error),
                            Ok((grayscale, s)) => Ok(
                                (
                                    StreamConfig {
                                        frames_per_second,
                                        bitrate_bits_per_second,
                                        codec,
                                        pixel_format,
                                        capture_cursor,
                                        grayscale,
                                    },
                                    s,
                                ),
                            ),
                        },
                    },
                },
            },
        },
    }
}

pub open spec fn parse_start(s: Seq<u8>) -> wire::Parsed<CommandView> {
    match wire::parse_text(s, MAX_DISPLAY_NAME_BYTES, Label::ViewerName) {
        Err(error) => Err(error),
        Ok((viewer_name, s)) => match wire::parse_u32(s) {
            Err(error) => Err(error),
            Ok((code, s)) => match parse_config(s) {
                Err(error) => Err(error),
                Ok((config, s)) => Ok(
                    (CommandView::Start { viewer_name, display_id: display_of(code), config }, s),
                ),
            },
        },
    }
}

pub open spec fn parse_start_input(s: Seq<u8>) -> wire::Parsed<CommandView> {
    match wire::parse_u32(s) {
        Err(error) => Err(error),
        Ok((id, s)) => parse_as(
            wire::parse_text(s, MAX_DISPLAY_NAME_BYTES, Label::ViewerName),
            |viewer_name: Seq<char>|
                CommandView::StartInput { viewer_name, display_id: DisplayId(id) },
        ),
    }
}

pub open spec fn parse_blackout(s: Seq<u8>) -> wire::Parsed<CommandView> {
    match wire::parse_flag(s, |value: u8| WireError::InvalidBlackoutFlag) {
        Err(error) => Err(error),
        Ok((enabled, s)) => parse_as(
            wire::parse_text(s, MAX_CONTROL_BYTES, Label::BlackoutMessage),
            |text: Seq<char>| CommandView::Blackout { enabled, text },
        ),
    }
}

/// Reads the fields that follow an opcode.
pub open spec fn parse_fields(opcode: u8, s: Seq<u8>, protocol: Protocol) -> wire::Parsed<
    CommandView,
> {
    match opcode {
        1 => parse_start(s),
        2 => Ok((CommandView::RequestKeyframe, s)),
        3 => parse_as(wire::parse_u32(s), |bits: u32| CommandView::SetBitrate(bits)),
        4 => Ok((CommandView::Stop, s)),
        5 => parse_as(
            wire::parse_blob(s, MAX_CONTROL_BYTES, Label::DesktopInput),
            |bytes: Seq<u8>| CommandView::Input(bytes),
        ),
        6 => Ok((CommandView::ReleaseInput, s)),
        7 => parse_start_input(s),
        8 => parse_as(
            wire::parse_blob(s, protocol.clipboard_wire_bytes, Label::DesktopClipboard),
            |bytes: Seq<u8>| CommandView::Clipboard(bytes),
        ),
        9 => parse_as(
            wire::parse_text(s, protocol.chat_text_bytes, Label::ChatText),
            |text: Seq<char>| CommandView::Chat(text),
        ),
        10 => Ok((CommandView::StartChat, s)),
        11 => Ok((CommandView::StopChat, s)),
        12 => parse_as(
            wire::parse_blob(s, MAX_CONTROL_BYTES, Label::FileTransfer),
            |bytes: Seq<u8>| CommandView::Files(bytes),
        ),
        13 => Ok((CommandView::StartFiles, s)),
        14 => parse_as(
            wire::parse_flag(s, |value: u8| WireError::InvalidInputBlockFlag),
            |flag: bool| CommandView::BlockInput(flag),
        ),
        15 => parse_blackout(s),
        16 => Ok((CommandView::StartClipboard, s)),
        17 => parse_as(
            wire::parse_text(s, MAX_CONTROL_BYTES, Label::ViewerName),
            |viewer_name: Seq<char>| CommandView::StartChatHelper { viewer_name },
        ),
        18 => parse_as(wire::parse_bool(s), |flag: bool| CommandView::SetCursorCapture(flag)),
        19 => parse_as(wire::parse_bool(s), |flag: bool| CommandView::SetWallpaperHidden(flag)),
        20 => parse_as(wire::parse_bool(s), |flag: bool| CommandView::SetDisplayBorder(flag)),
        21 => parse_as(wire::parse_bool(s), |flag: bool| CommandView::SetPreventIdleLock(flag)),
        22 => Ok((CommandView::EnumerateDisplays, s)),
        23 => Ok((CommandView::PromptCredentials, s)),
        24 => parse_as(
            wire::parse_blob(s, MAX_PROTECTED_CREDENTIAL_BYTES, Label::ProtectedCredentials),
            |bytes: Seq<u8>| CommandView::AutofillCredentials(bytes),
        ),
        _ => Err(WireError::UnknownCommand(opcode)),
    }
}

/// The command at the head of a byte sequence.
pub open spec fn parse_command(s: Seq<u8>, protocol: Protocol) -> wire::Parsed<CommandView> {
    match wire::parse_u8(s) {
        Err(error) => Err(error),
        Ok((opcode, s)) => parse_fields(opcode, s, protocol),
    }
}

fn read_config(reader: &mut PipeReader) -> (result: Result<StreamConfig, WireError>)
    ensures
        wire::reads(final(reader).rest(), result, parse_config(old(reader).rest())),
{
    let frames_per_second = read_u32(reader)?;
    let bitrate_bits_per_second = read_u32(reader)?;
    let codec = read_codec(reader)?;
    let pixel_format = read_pixel_format(reader)?;
    let capture_cursor = read_bool(reader)?;
    let grayscale = read_bool(reader)?;
    Ok(
        StreamConfig {
            frames_per_second,
            bitrate_bits_per_second,
            codec,
            pixel_format,
            capture_cursor,
            grayscale,
        },
    )
}

fn read_start(reader: &mut PipeReader) -> (result: Result<ParentCommand, WireError>)
    ensures
        wire::reads_view(final(reader).rest(), result, parse_start(old(reader).rest())),
{
    let viewer_name = read_text(reader, MAX_DISPLAY_NAME_BYTES, Label::ViewerName)?;
    let code = read_u32(reader)?;
    let config = read_config(reader)?;
    let display_id = if code == NO_DISPLAY {
        None
    } else {
        Some(DisplayId(code))
    };
    Ok(ParentCommand::Start { viewer_name, display_id, config })
}

/// Reads one command and moves past it; after an error the reader's position
/// means nothing.
pub fn read_command(reader: &mut PipeReader, protocol: &Protocol) -> (result: Result<
    ParentCommand,
    WireError,
>)
    ensures
        wire::reads_view(
            final(reader).rest(),
            result,
            parse_command(old(reader).rest(), *protocol),
        ),
{
    match read_u8(reader)? {
        1 => read_start(reader),
        2 => Ok(ParentCommand::RequestKeyframe),
        3 => Ok(ParentCommand::SetBitrate(read_u32(reader)?)),
        4 => Ok(ParentCommand::Stop),
        5 => Ok(ParentCommand::Input(read_blob(reader, MAX_CONTROL_BYTES, Label::DesktopInput)?)),
        6 => Ok(ParentCommand::ReleaseInput),
        7 => {
            let display_id = DisplayId(read_u32(reader)?);
            let viewer_name = read_text(reader, MAX_DISPLAY_NAME_BYTES, Label::ViewerName)?;
            Ok(ParentCommand::StartInput { viewer_name, display_id })
        },
        8 => Ok(
            ParentCommand::Clipboard(
                read_blob(reader, protocol.clipboard_wire_bytes, Label::DesktopClipboard)?,
            ),
        ),
        9 => Ok(ParentCommand::Chat(read_text(reader, protocol.chat_text_bytes, Label::ChatText)?)),
        10 => Ok(ParentCommand::StartChat),
        11 => Ok(ParentCommand::StopChat),
        12 => Ok(ParentCommand::Files(read_blob(reader, MAX_CONTROL_BYTES, Label::FileTransfer)?)),
        13 => Ok(ParentCommand::StartFiles),
        14 => match read_u8(reader)? {
            0 => Ok(ParentCommand::BlockInput(false)),
            1 => Ok(ParentCommand::BlockInput(true)),
            _ => Err(WireError::InvalidInputBlockFlag),
        },
        15 => {
            let enabled = read_u8(reader)?;
            if enabled > 1 {
                return Err(WireError::InvalidBlackoutFlag);
            }
            let text = read_text(reader, MAX_CONTROL_BYTES, Label::BlackoutMessage)?;
            Ok(ParentCommand::Blackout { enabled: enabled == 1, text })
        },
        16 => Ok(ParentCommand::StartClipboard),
        17 => {
            let viewer_name = read_text(reader, MAX_CONTROL_BYTES, Label::ViewerName)?;
            Ok(ParentCommand::StartChatHelper { viewer_name })
        },
        18 => Ok(ParentCommand::SetCursorCapture(read_bool(reader)?)),
        19 => Ok(ParentCommand::SetWallpaperHidden(read_bool(reader)?)),
        20 => Ok(ParentCommand::SetDisplayBorder(read_bool(reader)?)),
        21 => Ok(ParentCommand::SetPreventIdleLock(read_bool(reader)?)),
        22 => Ok(ParentCommand::EnumerateDisplays),
        23 => Ok(ParentCommand::PromptCredentials),
        24 => Ok(
            ParentCommand::AutofillCredentials(
                read_blob(
                    reader,
                    MAX_PROTECTED_CREDENTIAL_BYTES,
                    Label::ProtectedCredentials,
                )?,
            ),
        ),
        opcode => Err(WireError::UnknownCommand(opcode)),
    }
}

/// How an encoded payload fared with the decoder of the viewer protocol.
#[derive(Debug, Clone, Copy, PartialEq, Eq, Structural)]
pub enum PayloadVerdict {
    /// It decoded to what its frame promises.
    Expected,
    /// It decoded to something else.
    Unexpected,
    /// It did not decode.
    Undecodable,
}

/// Why a framed command is not accepted once its payload has been judged.
pub open spec fn payload_refusal(command: CommandView, verdict: PayloadVerdict) -> Option<
    WireError,
> {
    match (command, verdict) {
        (_, PayloadVerdict::Expected) => None,
        (CommandView::Input(_), PayloadVerdict::Unexpected) => Some(WireError::NotInput),
        (CommandView::Input(_), PayloadVerdict::Undecodable) => Some(
            WireError::Undecodable(Label::DesktopInput),
        ),
        (CommandView::Files(_), PayloadVerdict::Unexpected) => Some(WireError::NotFileTransfer),
        (CommandView::Files(_), PayloadVerdict::Undecodable) => Some(
            WireError::Undecodable(Label::FileTransfer),
        ),
        (CommandView::Clipboard(_), _) => Some(WireError::Undecodable(Label::DesktopClipboard)),
        (CommandView::Chat(_), _) => Some(WireError::InvalidChatText),
        _ => None,
    }
}

/// The second half of reading a command: what the decoder says of an input,
/// file, clipboard or chat payload decides whether the command stands.
pub fn accept_command(command: ParentCommand, verdict: PayloadVerdict) -> (result: Result<
    ParentCommand,
    WireError,
>)
    ensures
        match payload_refusal(command@, verdict) {
            None => result == Ok::<ParentCommand, WireError>(command),
            Some(error) => result == Err::<ParentCommand, WireError>(error),
        },
{
    match (&command, verdict) {
        (_, PayloadVerdict::Expected) => Ok(command),
        (ParentCommand::Input(_), PayloadVerdict::Unexpected) => Err(WireError::NotInput),
        (ParentCommand::Input(_), PayloadVerdict::Undecodable) => Err(
            WireError::Undecodable(Label::DesktopInput),
        ),
        (ParentCommand::Files(_), PayloadVerdict::Unexpected) => Err(WireError::NotFileTransfer),
        (ParentCommand::Files(_), PayloadVerdict::Undecodable) => Err(
            WireError::Undecodable(Label::FileTransfer),
        ),
        (ParentCommand::Clipboard(_), _) => Err(WireError::Undecodable(Label::DesktopClipboard)),
        (ParentCommand::Chat(_), _) => Err(WireError::InvalidChatText),
        _ => Ok(command),
    }
}

/// The opcode that identifies a command.
pub fn command_name(command: &ParentCommand) -> (opcode: u8)
    ensures
        opcode == command_opcode(command@),
{
    match command {
        ParentCommand::EnumerateDisplays => 22,
        ParentCommand::Start { .. } => 1,
        ParentCommand::SetWallpaperHidden(_) => 19,
        ParentCommand::SetPreventIdleLock(_) => 21,
        ParentCommand::SetCursorCapture(_) => 18,
        ParentCommand::SetDisplayBorder(_) => 20,
        ParentCommand::RequestKeyframe => 2,
        ParentCommand::SetBitrate(_) => 3,
        ParentCommand::StartInput { .. } => 7,
        ParentCommand::Input(_) => 5,
        ParentCommand::ReleaseInput => 6,
        ParentCommand::BlockInput(_) => 14,
        ParentCommand::Blackout { .. } => 15,
        ParentCommand::Clipboard(_) => 8,
        ParentCommand::StartFiles => 13,
        ParentCommand::StartClipboard => 16,
        ParentCommand::StartChatHelper { .. } => 17,
        ParentCommand::PromptCredentials => 23,
        ParentCommand::AutofillCredentials(_) => 24,
        ParentCommand::Files(_) => 12,
        ParentCommand::Chat(_) => 9,
        ParentCommand::StartChat => 10,
        ParentCommand::StopChat => 11,
        ParentCommand::Stop => 4,
    }
}

proof fn lemma_flag(flag: bool, rest: Seq<u8>, refusal: spec_fn(u8) -> WireError)
    ensures
        wire::parse_flag(seq![wire::flag_byte(flag)] + rest, refusal) == Ok::<
            (bool, Seq<u8>),
            WireError,
        >((flag, rest)),
{
    wire::lemma_u8(wire::flag_byte(flag), rest);
}

proof fn lemma_flag_canonical(s: Seq<u8>, refusal: spec_fn(u8) -> WireError)
    requires
        wire::parse_flag(s, refusal) is Ok,
    ensures
        ({
            let (flag, rest) = wire::parse_flag(s, refusal)->Ok_0;
            s == seq![wire::flag_byte(flag)] + rest
        }),
{
    wire::lemma_u8_canonical(s);
}

/// The fields of a configuration one after the other, and what follows them.
proof fn lemma_config_fields(config: StreamConfig, rest: Seq<u8>)
    ensures
        config_bytes(config) + rest == wire::u32_bytes(config.frames_per_second) + (
        wire::u32_bytes(config.bitrate_bits_per_second) + (seq![wire::codec_code(config.codec)] + (
        seq![wire::pixel_format_code(config.pixel_format)] + (seq![
            wire::flag_byte(config.capture_cursor),
        ] + (seq![wire::flag_byte(config.grayscale)] + rest))))),
{
    let frames_bytes = wire::u32_bytes(config.frames_per_second);
    let bitrate_bytes = wire::u32_bytes(config.bitrate_bits_per_second);
    let codes = seq![
        wire::codec_code(config.codec),
        wire::pixel_format_code(config.pixel_format),
        wire::flag_byte(config.capture_cursor),
        wire::flag_byte(config.grayscale),
    ];
    assert(codes + rest =~= seq![wire::codec_code(config.codec)] + (seq![
        wire::pixel_format_code(config.pixel_format),
    ] + (seq![wire::flag_byte(config.capture_cursor)] + (seq![wire::flag_byte(config.grayscale)]
        + rest))));
    wire::lemma_concat(frames_bytes + bitrate_bytes, codes, rest);
    wire::lemma_concat(frames_bytes, bitrate_bytes, codes + rest);
}

proof fn lemma_config(config: StreamConfig, rest: Seq<u8>)
    ensures
        parse_config(config_bytes(config) + rest) == Ok::<(StreamConfig, Seq<u8>), WireError>(
            (config, rest),
        ),
{
    let refusal = |value: u8| WireError::InvalidBoolean;
    let after_cursor = seq![wire::flag_byte(config.grayscale)] + rest;
    let after_format = seq![wire::flag_byte(config.capture_cursor)] + after_cursor;
    let after_codec = seq![wire::pixel_format_code(config.pixel_format)] + after_format;
    let after_bitrate = seq![wire::codec_code(config.codec)] + after_codec;
    let after_frames = wire::u32_bytes(config.bitrate_bits_per_second) + after_bitrate;
    lemma_config_fields(config, rest);
    wire::lemma_u32(config.frames_per_second, after_frames);
    wire::lemma_u32(config.bitrate_bits_per_second, after_bitrate);
    wire::lemma_u8(wire::codec_code(config.codec), after_codec);
    wire::lemma_u8(wire::pixel_format_code(config.pixel_format), after_format);
    lemma_flag(config.capture_cursor, after_cursor, refusal);
    lemma_flag(config.grayscale, rest, refusal);
}

proof fn lemma_config_canonical(s: Seq<u8>)
    requires
        parse_config(s) is Ok,
    ensures
        ({
            let (config, rest) = parse_config(s)->Ok_0;
            s == config_bytes(config) + rest
        }),
{
    let refusal = |value: u8| WireError::InvalidBoolean;
    let (config, rest) = parse_config(s)->Ok_0;
    wire::lemma_u32_canonical(s);
    let s1 = s.skip(4);
    wire::lemma_u32_canonical(s1);
    let s2 = s1.skip(4);
    wire::lemma_u8_canonical(s2);
    let s3 = s2.skip(1);
    wire::lemma_u8_canonical(s3);
    let s4 = s3.skip(1);
    lemma_flag_canonical(s4, refusal);
    lemma_flag_canonical(s4.skip(1), refusal);
    assert(s =~= config_bytes(config) + rest);
}

proof fn lemma_config_carries_over(s: Seq<u8>, more: Seq<u8>)
    ensures
        wire::carries_over(parse_config(s), parse_config(s + more), more),
{
    wire::lemma_u32_carries_over(s, more);
    if s.len() >= 4 {
        let s1 = s.skip(4);
        wire::lemma_u32_carries_over(s1, more);
        if s1.len() >= 4 {
            let s2 = s1.skip(4);
            wire::lemma_u8_carries_over(s2, more);
            if s2.len() >= 1 {
                wire::lemma_u8_carries_over(s2.skip(1), more);
                if s2.skip(1).len() >= 1 {
                    wire::lemma_u8_carries_over(s2.skip(1).skip(1), more);
                    if s2.skip(1).skip(1).len() >= 1 {
                        wire::lemma_u8_carries_over(s2.skip(1).skip(1).skip(1), more);
                    }
                }
            }
        }
    }
}

/// Whether a command is one that its reader gives back as it is: its writer does
/// not refuse it, and it does not name the display that stands for none.
pub open spec fn command_readable(command: CommandView, protocol: Protocol) -> bool {
    &&& command_refusal(command, protocol, true) is None
    &&& command matches CommandView::Start { display_id, .. } ==> display_id != Some(
        DisplayId(NO_DISPLAY),
    )
}

/// A command that was written is read back unchanged, and the reader then
/// stands exactly at the next frame.
pub proof fn command_round_trip(command: CommandView, rest: Seq<u8>, protocol: Protocol)
    requires
        command_readable(command, protocol),
    ensures
        parse_command(command_bytes(command) + rest, protocol) == Ok::<
            (CommandView, Seq<u8>),
            WireError,
        >((command, rest)),
{
    let fields = command_fields(command) + rest;
    assert(command_bytes(command) + rest =~= seq![command_opcode(command)] + fields);
    wire::lemma_u8(command_opcode(command), fields);
    match command {
        CommandView::AutofillCredentials(bytes) => wire::lemma_blob(
            bytes,
            rest,
            MAX_PROTECTED_CREDENTIAL_BYTES,
            Label::ProtectedCredentials,
        ),
        CommandView::StartChatHelper { viewer_name } => wire::lemma_text(
            viewer_name,
            rest,
            MAX_CONTROL_BYTES,
            Label::ViewerName,
        ),
        CommandView::Files(bytes) => wire::lemma_blob(
            bytes,
            rest,
            MAX_CONTROL_BYTES,
            Label::FileTransfer,
        ),
        CommandView::Start { viewer_name, display_id, config } => {
            let after_id = config_bytes(config) + rest;
            let after_name = wire::u32_bytes(display_code(display_id)) + after_id;
            assert(fields =~= wire::text_bytes(viewer_name) + after_name);
            wire::lemma_text(viewer_name, after_name, MAX_DISPLAY_NAME_BYTES, Label::ViewerName);
            wire::lemma_u32(display_code(display_id), after_id);
            lemma_config(config, rest);
        },
        CommandView::SetBitrate(bits) => wire::lemma_u32(bits, rest),
        CommandView::SetCursorCapture(flag) => lemma_flag(
            flag,
            rest,
            |value: u8| WireError::InvalidBoolean,
        ),
        CommandView::SetDisplayBorder(flag) => lemma_flag(
            flag,
            rest,
            |value: u8| WireError::InvalidBoolean,
        ),
        CommandView::SetWallpaperHidden(flag) => lemma_flag(
            flag,
            rest,
            |value: u8| WireError::InvalidBoolean,
        ),
        CommandView::SetPreventIdleLock(flag) => lemma_flag(
            flag,
            rest,
            |value: u8| WireError::InvalidBoolean,
        ),
        CommandView::StartInput { viewer_name, display_id } => {
            let after_id = wire::text_bytes(viewer_name) + rest;
            assert(fields =~= wire::u32_bytes(display_id.0) + after_id);
            wire::lemma_u32(display_id.0, after_id);
            wire::lemma_text(viewer_name, rest, MAX_DISPLAY_NAME_BYTES, Label::ViewerName);
        },
        CommandView::Input(bytes) => wire::lemma_blob(
            bytes,
            rest,
            MAX_CONTROL_BYTES,
            Label::DesktopInput,
        ),
        CommandView::BlockInput(flag) => lemma_flag(
            flag,
            rest,
            |value: u8| WireError::InvalidInputBlockFlag,
        ),
        CommandView::Blackout { enabled, text } => {
            let after_flag = wire::text_bytes(text) + rest;
            assert(fields =~= seq![wire::flag_byte(enabled)] + after_flag);
            lemma_flag(enabled, after_flag, |value: u8| WireError::InvalidBlackoutFlag);
            wire::lemma_text(text, rest, MAX_CONTROL_BYTES, Label::BlackoutMessage);
        },
        CommandView::Clipboard(bytes) => wire::lemma_blob(
            bytes,
            rest,
            protocol.clipboard_wire_bytes,
            Label::DesktopClipboard,
        ),
        CommandView::Chat(text) => wire::lemma_text(
            text,
            rest,
            protocol.chat_text_bytes,
            Label::ChatText,
        ),
        _ => {
            assert(fields =~= rest);
        },
    }
}

/// A command as its reader gives it: the display that stands for none is none.
pub open spec fn framed(command: CommandView) -> CommandView {
    match command {
        CommandView::Start { viewer_name, display_id, config } => CommandView::Start {
            viewer_name,
            display_id: display_of(display_code(display_id)),
            config,
        },
        _ => command,
    }
}

/// Every command that its writer accepts is read back, with all that it says, and
/// the reader then stands exactly at the next frame. It is accepted once its
/// payload has been found to be what it is.
pub proof fn written_commands_are_read_back(
    command: CommandView,
    rest: Seq<u8>,
    protocol: Protocol,
    chat_valid: bool,
)
    requires
        command_refusal(command, protocol, chat_valid) is None,
    ensures
        parse_command(command_bytes(command) + rest, protocol) == Ok::<
            (CommandView, Seq<u8>),
            WireError,
        >((framed(command), rest)),
        payload_refusal(framed(command), PayloadVerdict::Expected) is None,
        !(command matches CommandView::Start { display_id, .. } && display_id == Some(
            DisplayId(NO_DISPLAY),
        )) ==> framed(command) == command,
{
    assert(command_bytes(framed(command)) == command_bytes(command));
    command_round_trip(framed(command), rest, protocol);
}

/// Two commands written one after the other are read one after the other, and
/// nothing is left: each takes exactly its own bytes.
pub proof fn consecutive_commands_stay_aligned(
    first: CommandView,
    second: CommandView,
    protocol: Protocol,
    first_valid: bool,
    second_valid: bool,
)
    requires
        command_refusal(first, protocol, first_valid) is None,
        command_refusal(second, protocol, second_valid) is None,
    ensures
        parse_command(command_bytes(first) + command_bytes(second), protocol) == Ok::<
            (CommandView, Seq<u8>),
            WireError,
        >((framed(first), command_bytes(second))),
        parse_command(command_bytes(second), protocol) == Ok::<(CommandView, Seq<u8>), WireError>(
            (framed(second), seq![]),
        ),
{
    written_commands_are_read_back(first, command_bytes(second), protocol, first_valid);
    written_commands_are_read_back(second, seq![], protocol, second_valid);
    assert(command_bytes(second) + Seq::<u8>::empty() =~= command_bytes(second));
}

proof fn lemma_start_canonical(s: Seq<u8>)
    requires
        parse_start(s) is Ok,
    ensures
        ({
            let (command, rest) = parse_start(s)->Ok_0;
            &&& command is Start
            &&& s == command_fields(command) + rest
            &&& command matches CommandView::Start { viewer_name, display_id, config }
                && utf8::encode_utf8(viewer_name).len() <= MAX_DISPLAY_NAME_BYTES && display_id
                != Some(DisplayId(NO_DISPLAY))
        }),
{
    let (command, rest) = parse_start(s)->Ok_0;
    wire::lemma_text_canonical(s, MAX_DISPLAY_NAME_BYTES, Label::ViewerName);
    let (name, s1) = wire::parse_text(s, MAX_DISPLAY_NAME_BYTES, Label::ViewerName)->Ok_0;
    wire::lemma_u32_canonical(s1);
    lemma_config_canonical(s1.skip(4));
    assert(s =~= command_fields(command) + rest);
}

proof fn lemma_start_input_canonical(s: Seq<u8>)
    requires
        parse_start_input(s) is Ok,
    ensures
        ({
            let (command, rest) = parse_start_input(s)->Ok_0;
            &&& s == command_fields(command) + rest
            &&& command matches CommandView::StartInput { viewer_name, display_id }
                && utf8::encode_utf8(viewer_name).len() <= MAX_DISPLAY_NAME_BYTES
        }),
{
    let (command, rest) = parse_start_input(s)->Ok_0;
    wire::lemma_u32_canonical(s);
    wire::lemma_text_canonical(s.skip(4), MAX_DISPLAY_NAME_BYTES, Label::ViewerName);
    assert(s =~= command_fields(command) + rest);
}

proof fn lemma_blackout_canonical(s: Seq<u8>)
    requires
        parse_blackout(s) is Ok,
    ensures
        ({
            let (command, rest) = parse_blackout(s)->Ok_0;
            &&& s == command_fields(command) + rest
            &&& command matches CommandView::Blackout { enabled, text } && utf8::encode_utf8(
                text,
            ).len() <= MAX_CONTROL_BYTES
        }),
{
    let (command, rest) = parse_blackout(s)->Ok_0;
    lemma_flag_canonical(s, |value: u8| WireError::InvalidBlackoutFlag);
    wire::lemma_text_canonical(s.skip(1), MAX_CONTROL_BYTES, Label::BlackoutMessage);
    assert(s =~= command_fields(command) + rest);
}

proof fn lemma_fields_canonical(opcode: u8, s: Seq<u8>, protocol: Protocol)
    requires
        parse_fields(opcode, s, protocol) is Ok,
    ensures
        ({
            let (command, rest) = parse_fields(opcode, s, protocol)->Ok_0;
            &&& command_opcode(command) == opcode
            &&& s == command_fields(command) + rest
            &&& command_readable(command, protocol)
        }),
{
    let (command, rest) = parse_fields(opcode, s, protocol)->Ok_0;
    match opcode {
        1 => lemma_start_canonical(s),
        3 => wire::lemma_u32_canonical(s),
        5 => wire::lemma_blob_canonical(s, MAX_CONTROL_BYTES, Label::DesktopInput),
        7 => lemma_start_input_canonical(s),
        8 => wire::lemma_blob_canonical(
            s,
            protocol.clipboard_wire_bytes,
            Label::DesktopClipboard,
        ),
        9 => wire::lemma_text_canonical(s, protocol.chat_text_bytes, Label::ChatText),
        12 => wire::lemma_blob_canonical(s, MAX_CONTROL_BYTES, Label::FileTransfer),
        14 => lemma_flag_canonical(s, |value: u8| WireError::InvalidInputBlockFlag),
        15 => lemma_blackout_canonical(s),
        17 => wire::lemma_text_canonical(s, MAX_CONTROL_BYTES, Label::ViewerName),
        18 => lemma_flag_canonical(s, |value: u8| WireError::InvalidBoolean),
        19 => lemma_flag_canonical(s, |value: u8| WireError::InvalidBoolean),
        20 => lemma_flag_canonical(s, |value: u8| WireError::InvalidBoolean),
        21 => lemma_flag_canonical(s, |value: u8| WireError::InvalidBoolean),
        24 => wire::lemma_blob_canonical(
            s,
            MAX_PROTECTED_CREDENTIAL_BYTES,
            Label::ProtectedCredentials,
        ),
        _ => {
            assert(s =~= Seq::<u8>::empty() + rest);
        },
    }
}

/// Whatever a reader accepts is the frame of the command it returns: no two
/// byte sequences stand for one command, and every accepted command is readable.
pub proof fn command_canonical(s: Seq<u8>, protocol: Protocol)
    requires
        parse_command(s, protocol) is Ok,
    ensures
        ({
            let (command, rest) = parse_command(s, protocol)->Ok_0;
            s == command_bytes(command) + rest && command_readable(command, protocol)
        }),
{
    let (command, rest) = parse_command(s, protocol)->Ok_0;
    wire::lemma_u8_canonical(s);
    lemma_fields_canonical(s[0], s.skip(1), protocol);
    assert(s =~= command_bytes(command) + rest);
}

/// More bytes change nothing about a frame that is complete or wrong: only an
/// early end is open, so a reader may retry when the pipe delivers more.
pub proof fn command_carries_over(s: Seq<u8>, more: Seq<u8>, protocol: Protocol)
    ensures
        wire::carries_over(parse_command(s, protocol), parse_command(s + more, protocol), more),
{
    wire::lemma_u8_carries_over(s, more);
    if s.len() >= 1 {
        let fields = s.skip(1);
        match s[0] {
            1 => {
                wire::lemma_text_carries_over(
                    fields,
                    more,
                    MAX_DISPLAY_NAME_BYTES,
                    Label::ViewerName,
                );
                if let Ok((name, s1)) = wire::parse_text(
                    fields,
                    MAX_DISPLAY_NAME_BYTES,
                    Label::ViewerName,
                ) {
                    wire::lemma_u32_carries_over(s1, more);
                    if s1.len() >= 4 {
                        lemma_config_carries_over(s1.skip(4), more);
                    }
                }
            },
            3 => wire::lemma_u32_carries_over(fields, more),
            5 => wire::lemma_blob_carries_over(
                fields,
                more,
                MAX_CONTROL_BYTES,
                Label::DesktopInput,
            ),
            7 => {
                wire::lemma_u32_carries_over(fields, more);
                if fields.len() >= 4 {
                    wire::lemma_text_carries_over(
                        fields.skip(4),
                        more,
                        MAX_DISPLAY_NAME_BYTES,
                        Label::ViewerName,
                    );
                }
            },
            8 => wire::lemma_blob_carries_over(
                fields,
                more,
                protocol.clipboard_wire_bytes,
                Label::DesktopClipboard,
            ),
            9 => wire::lemma_text_carries_over(
                fields,
                more,
                protocol.chat_text_bytes,
                Label::ChatText,
            ),
            12 => wire::lemma_blob_carries_over(
                fields,
                more,
                MAX_CONTROL_BYTES,
                Label::FileTransfer,
            ),
            15 => {
                wire::lemma_u8_carries_over(fields, more);
                if fields.len() >= 1 {
                    wire::lemma_text_carries_over(
                        fields.skip(1),
                        more,
                        MAX_CONTROL_BYTES,
                        Label::BlackoutMessage,
                    );
                }
            },
            17 => wire::lemma_text_carries_over(fields, more, MAX_CONTROL_BYTES, Label::ViewerName),
            24 => wire::lemma_blob_carries_over(
                fields,
                more,
                MAX_PROTECTED_CREDENTIAL_BYTES,
                Label::ProtectedCredentials,
            ),
            _ => wire::lemma_u8_carries_over(fields, more),
        }
    }
}

/// Every command has its own first byte, and the bytes that follow are its fields,
/// in the order that they are read in; a command without fields is that byte alone.
pub proof fn commands_have_their_numbers(
    viewer_name: Seq<char>,
    display_id: DisplayId,
    config: StreamConfig,
    bytes: Seq<u8>,
    bits: u32,
    flag: bool,
)
    ensures
        command_bytes(CommandView::RequestKeyframe) == seq![2u8],
        command_bytes(CommandView::Stop) == seq![4u8],
        command_bytes(CommandView::ReleaseInput) == seq![6u8],
        command_bytes(CommandView::StartChat) == seq![10u8],
        command_bytes(CommandView::StopChat) == seq![11u8],
        command_bytes(CommandView::StartFiles) == seq![13u8],
        command_bytes(CommandView::StartClipboard) == seq![16u8],
        command_bytes(CommandView::EnumerateDisplays) == seq![22u8],
        command_bytes(CommandView::PromptCredentials) == seq![23u8],
        command_bytes(CommandView::SetBitrate(bits)) == seq![3u8] + wire::u32_bytes(bits),
        command_bytes(CommandView::Input(bytes)) == seq![5u8] + wire::blob_bytes(bytes),
        command_bytes(CommandView::Clipboard(bytes)) == seq![8u8] + wire::blob_bytes(bytes),
        command_bytes(CommandView::Files(bytes)) == seq![12u8] + wire::blob_bytes(bytes),
        command_bytes(CommandView::AutofillCredentials(bytes)) == seq![24u8] + wire::blob_bytes(
            bytes,
        ),
        command_bytes(CommandView::Chat(viewer_name)) == seq![9u8] + wire::text_bytes(viewer_name),
        command_bytes(CommandView::StartChatHelper { viewer_name }) == seq![17u8]
            + wire::text_bytes(viewer_name),
        command_bytes(CommandView::BlockInput(flag)) == seq![14u8, wire::flag_byte(flag)],
        command_bytes(CommandView::SetCursorCapture(flag)) == seq![18u8, wire::flag_byte(flag)],
        command_bytes(CommandView::SetWallpaperHidden(flag)) == seq![19u8, wire::flag_byte(flag)],
        command_bytes(CommandView::SetDisplayBorder(flag)) == seq![20u8, wire::flag_byte(flag)],
        command_bytes(CommandView::SetPreventIdleLock(flag)) == seq![21u8, wire::flag_byte(flag)],
        command_bytes(CommandView::Blackout { enabled: flag, text: viewer_name }) == seq![
            15u8,
            wire::flag_byte(flag),
        ] + wire::text_bytes(viewer_name),
        command_bytes(CommandView::StartInput { viewer_name, display_id }) == seq![7u8]
            + wire::u32_bytes(display_id.0) + wire::text_bytes(viewer_name),
        command_bytes(CommandView::Start { viewer_name, display_id: Some(display_id), config })
            == seq![1u8] + wire::text_bytes(viewer_name) + wire::u32_bytes(display_id.0)
            + wire::u32_bytes(config.frames_per_second) + wire::u32_bytes(
            config.bitrate_bits_per_second,
        ) + seq![
            wire::codec_code(config.codec),
            wire::pixel_format_code(config.pixel_format),
            wire::flag_byte(config.capture_cursor),
            wire::flag_byte(config.grayscale),
        ],
        command_bytes(CommandView::Start { viewer_name, display_id: None, config })
            == command_bytes(
            CommandView::Start { viewer_name, display_id: Some(DisplayId(0xffff_ffff)), config },
        ),
{
    assert(command_bytes(CommandView::RequestKeyframe) =~= seq![2u8]);
    assert(command_bytes(CommandView::Stop) =~= seq![4u8]);
    assert(command_bytes(CommandView::ReleaseInput) =~= seq![6u8]);
    assert(command_bytes(CommandView::StartChat) =~= seq![10u8]);
    assert(command_bytes(CommandView::StopChat) =~= seq![11u8]);
    assert(command_bytes(CommandView::StartFiles) =~= seq![13u8]);
    assert(command_bytes(CommandView::StartClipboard) =~= seq![16u8]);
    assert(command_bytes(CommandView::EnumerateDisplays) =~= seq![22u8]);
    assert(command_bytes(CommandView::PromptCredentials) =~= seq![23u8]);
    assert(command_bytes(CommandView::BlockInput(flag)) =~= seq![14u8, wire::flag_byte(flag)]);
    assert(command_bytes(CommandView::SetCursorCapture(flag)) =~= seq![
        18u8,
        wire::flag_byte(flag),
    ]);
    assert(command_bytes(CommandView::SetWallpaperHidden(flag)) =~= seq![
        19u8,
        wire::flag_byte(flag),
    ]);
    assert(command_bytes(CommandView::SetDisplayBorder(flag)) =~= seq![
        20u8,
        wire::flag_byte(flag),
    ]);
    assert(command_bytes(CommandView::SetPreventIdleLock(flag)) =~= seq![
        21u8,
        wire::flag_byte(flag),
    ]);
    assert(command_bytes(CommandView::Blackout { enabled: flag, text: viewer_name }) =~= seq![
        15u8,
        wire::flag_byte(flag),
    ] + wire::text_bytes(viewer_name));
    assert(command_bytes(CommandView::StartInput { viewer_name, display_id }) =~= seq![7u8]
        + wire::u32_bytes(display_id.0) + wire::text_bytes(viewer_name));
    assert(command_bytes(
        CommandView::Start { viewer_name, display_id: Some(display_id), config },
    ) =~= seq![1u8] + wire::text_bytes(viewer_name) + wire::u32_bytes(display_id.0)
        + wire::u32_bytes(config.frames_per_second) + wire::u32_bytes(
        config.bitrate_bits_per_second,
    ) + seq![
        wire::codec_code(config.codec),
        wire::pixel_format_code(config.pixel_format),
        wire::flag_byte(config.capture_cursor),
        wire::flag_byte(config.grayscale),
    ]);
}

/// A command is written exactly when its one field of changing length is no longer
/// than that field may be: a display's name, a control message, protected
/// credentials, or what the protocol says of clipboards and chats, whose texts have
/// to be valid too. Nothing else is refused, and a refusal names the field.
pub proof fn commands_are_refused_only_for_their_length(
    command: CommandView,
    protocol: Protocol,
    chat_valid: bool,
)
    ensures
        ({
            let refused = command_refusal(command, protocol, chat_valid);
            &&& command matches CommandView::Start { viewer_name, .. } ==> refused == (
            if utf8::encode_utf8(viewer_name).len() > 4_096 {
                Some(WireError::TooLong(Label::ViewerName))
            } else {
                None
            })
            &&& command matches CommandView::StartInput { viewer_name, .. } ==> refused == (
            if utf8::encode_utf8(viewer_name).len() > 4_096 {
                Some(WireError::TooLong(Label::ViewerName))
            } else {
                None
            })
            &&& command matches CommandView::StartChatHelper { viewer_name } ==> refused == (
            if utf8::encode_utf8(viewer_name).len() > 65_536 {
                Some(WireError::TooLong(Label::ViewerName))
            } else {
                None
            })
            &&& command matches CommandView::Blackout { text, .. } ==> refused == (
            if utf8::encode_utf8(text).len() > 65_536 {
                Some(WireError::TooLong(Label::BlackoutMessage))
            } else {
                None
            })
            &&& command matches CommandView::Input(bytes) ==> refused == (if bytes.len() > 65_536 {
                Some(WireError::TooLong(Label::DesktopInput))
            } else {
                None
            })
            &&& command matches CommandView::Files(bytes) ==> refused == (if bytes.len() > 65_536 {
                Some(WireError::TooLong(Label::FileTransfer))
            } else {
                None
            })
            &&& command matches CommandView::AutofillCredentials(bytes) ==> refused == (
            if bytes.len() > 8_192 {
                Some(WireError::TooLong(Label::ProtectedCredentials))
            } else {
                None
            })
            &&& command matches CommandView::Clipboard(bytes) ==> refused == (if bytes.len()
                > protocol.clipboard_wire_bytes || bytes.len() > 0xffff_ffff {
                Some(WireError::TooLong(Label::DesktopClipboard))
            } else {
                None
            })
            &&& command matches CommandView::Chat(text) ==> refused == (if !chat_valid
                || utf8::encode_utf8(text).len() > protocol.chat_text_bytes || utf8::encode_utf8(
                text,
            ).len() > 0xffff_ffff {
                Some(WireError::InvalidChatText)
            } else {
                None
            })
            &&& refused is Some ==> command is Start || command is StartInput || command
                is StartChatHelper || command is Blackout || command is Input || command is Files
                || command is AutofillCredentials || command is Clipboard || command is Chat
        }),
{
}

/// What a payload holds matters only to the four commands that have one, and each
/// is refused by its own name for what it is not; where the payload is what it
/// should be, nothing is refused.
pub proof fn payloads_have_to_be_what_they_are_called(
    command: CommandView,
    verdict: PayloadVerdict,
)
    ensures
        ({
            let refused = payload_refusal(command, verdict);
            &&& refused is Some <==> verdict != PayloadVerdict::Expected && (command is Input
                || command is Files || command is Clipboard || command is Chat)
            &&& refused == Some(WireError::NotInput) <==> command is Input && verdict
                == PayloadVerdict::Unexpected
            &&& refused == Some(WireError::NotFileTransfer) <==> command is Files && verdict
                == PayloadVerdict::Unexpected
            &&& refused == Some(WireError::Undecodable(Label::DesktopInput)) <==> command is Input
                && verdict == PayloadVerdict::Undecodable
            &&& refused == Some(WireError::Undecodable(Label::FileTransfer)) <==> command is Files
                && verdict == PayloadVerdict::Undecodable
            &&& refused == Some(WireError::Undecodable(Label::DesktopClipboard)) <==> command
                is Clipboard && verdict != PayloadVerdict::Expected
            &&& refused == Some(WireError::InvalidChatText) <==> command is Chat && verdict
                != PayloadVerdict::Expected
        }),
{
}

/// A byte that begins no command is refused by its number, and nothing at all is
/// an early end.
pub proof fn unknown_commands_are_refused(s: Seq<u8>, protocol: Protocol)
    ensures
        s.len() == 0 ==> parse_command(s, protocol) == Err::<(CommandView, Seq<u8>), WireError>(
            WireError::UnexpectedEnd,
        ),
        s.len() > 0 && (s[0] == 0 || s[0] > 24) ==> parse_command(s, protocol) == Err::<
            (CommandView, Seq<u8>),
            WireError,
        >(WireError::UnknownCommand(s[0])),
        display_of(0xffff_ffff) is None,
        forall|code: u32|
            code != 0xffff_ffff ==> #[trigger] display_of(code) == Some(DisplayId(code)),
{
}

/// A command that is refused leaves nothing on the pipe that could be taken for a
/// whole one: its first byte where its length is judged only then, and nothing
/// otherwise.
pub proof fn refused_commands_are_cut_short(command: CommandView)
    ensures
        command is Start ==> refused_bytes(command) == seq![1u8],
        command is Files ==> refused_bytes(command) == seq![12u8],
        !(command is Start) && !(command is Files) ==> refused_bytes(command).len() == 0,
{
}

} // verus!
