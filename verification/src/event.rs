//! Events from a desktop helper to the session coordinator, and their frames.
//!
//! A frame is an opcode byte and the fields of that event. Cursor, clipboard,
//! file and credential payloads travel as their own codecs encode them.
use crate::command;
use crate::command::PayloadVerdict;
use crate::display_frame;
use crate::display_frame::{read_catalog, write_displays};
use crate::model;
use crate::model::{
    ActiveFormat, Display, DisplayId, DisplayView, Protocol, StartedDesktop, StartedView,
};
use crate::wire;
use crate::wire::{
    bounded_len, checked_len, codec_byte, pixel_format_byte, read_blob, read_bool, read_codec,
    read_pixel_format, read_text, read_u32, read_u64, read_u8, write_blob, write_bytes, write_flag,
    write_text, write_u32, write_u64, Label, PipeReader, WireError, MAX_CODEC_CONFIG_BYTES,
    MAX_CONTROL_BYTES, MAX_CREDENTIAL_RESULT_BYTES, MAX_DISPLAYS, MAX_ERROR_BYTES, MAX_FRAME_BYTES,
    NO_DISPLAY,
};
use vstd::prelude::*;
use vstd::utf8;

verus! {

/// One encoded video frame.
#[derive(Debug)]
pub struct EncodedAccessUnit {
    pub capture_timestamp_us: u64,
    pub encode_complete_timestamp_us: u64,
    pub keyframe: bool,
    pub codec_config: Option<Vec<u8>>,
    pub data: Vec<u8>,
}

pub struct AccessUnitView {
    pub capture_timestamp_us: u64,
    pub encode_complete_timestamp_us: u64,
    pub keyframe: bool,
    pub codec_config: Option<Seq<u8>>,
    pub data: Seq<u8>,
}

impl View for EncodedAccessUnit {
    type V = AccessUnitView;

    open spec fn view(&self) -> AccessUnitView {
        AccessUnitView {
            capture_timestamp_us: self.capture_timestamp_us,
            encode_complete_timestamp_us: self.encode_complete_timestamp_us,
            keyframe: self.keyframe,
            codec_config: match self.codec_config {
                Some(bytes) => Some(bytes@),
                None => None,
            },
            data: self.data@,
        }
    }
}

#[derive(Debug)]
pub enum ChildEvent {
    Credentials(Vec<u8>),
    CredentialPrompt(bool),
    Files(Vec<u8>),
    Started(StartedDesktop),
    InputStarted,
    MaintenanceState { agent_input_blocked: bool, blacked_out: bool },
    MaintenanceError(String),
    Frame(EncodedAccessUnit),
    Cursor { shape: Vec<u8>, viewer_controls_input: bool, pointer_display: Option<DisplayId> },
    Clipboard(Vec<u8>),
    Chat(String),
    Error(String),
    Stopped,
}

pub enum EventView {
    Credentials(Seq<u8>),
    CredentialPrompt(bool),
    Files(Seq<u8>),
    Started(StartedView),
    InputStarted,
    MaintenanceState { agent_input_blocked: bool, blacked_out: bool },
    MaintenanceError(Seq<char>),
    Frame(AccessUnitView),
    Cursor { shape: Seq<u8>, viewer_controls_input: bool, pointer_display: Option<DisplayId> },
    Clipboard(Seq<u8>),
    Chat(Seq<char>),
    Error(Seq<char>),
    Stopped,
}

impl View for ChildEvent {
    type V = EventView;

    open spec fn view(&self) -> EventView {
        match *self {
            ChildEvent::Credentials(bytes) => EventView::Credentials(bytes@),
            ChildEvent::CredentialPrompt(ready) => EventView::CredentialPrompt(ready),
            ChildEvent::Files(bytes) => EventView::Files(bytes@),
            ChildEvent::Started(started) => EventView::Started(started@),
            ChildEvent::InputStarted => EventView::InputStarted,
            ChildEvent::MaintenanceState { agent_input_blocked, blacked_out } =>
                EventView::MaintenanceState { agent_input_blocked, blacked_out },
            ChildEvent::MaintenanceError(reason) => EventView::MaintenanceError(reason@),
            ChildEvent::Frame(frame) => EventView::Frame(frame@),
            ChildEvent::Cursor { shape, viewer_controls_input, pointer_display } =>
                EventView::Cursor { shape: shape@, viewer_controls_input, pointer_display },
            ChildEvent::Clipboard(bytes) => EventView::Clipboard(bytes@),
            ChildEvent::Chat(text) => EventView::Chat(text@),
            ChildEvent::Error(message) => EventView::Error(message@),
            ChildEvent::Stopped => EventView::Stopped,
        }
    }
}

/// The byte that starts an event's frame.
pub open spec fn event_opcode(event: EventView) -> u8 {
    match event {
        EventView::Started(_) => 1,
        EventView::Frame(_) => 2,
        EventView::Error(_) => 3,
        EventView::Stopped => 4,
        EventView::Cursor { .. } => 5,
        EventView::InputStarted => 6,
        EventView::Clipboard(_) => 7,
        EventView::Chat(_) => 8,
        EventView::Files(_) => 9,
        EventView::MaintenanceState { .. } => 10,
        EventView::MaintenanceError(_) => 11,
        EventView::Credentials(_) => 12,
        EventView::CredentialPrompt(_) => 13,
    }
}

pub open spec fn format_bytes(format: ActiveFormat) -> Seq<u8> {
    wire::u32_bytes(format.width) + wire::u32_bytes(format.height) + wire::u32_bytes(
        format.frames_per_second,
    ) + wire::u32_bytes(format.bitrate_bits_per_second) + seq![
        wire::codec_code(format.codec),
        wire::pixel_format_code(format.pixel_format),
    ]
}

/// The fields of a start report before its list of displays.
pub open spec fn started_head(started: StartedView) -> Seq<u8> {
    format_bytes(started.format) + wire::u32_bytes(started.active_display.id.0)
}

pub open spec fn config_of(frame: AccessUnitView) -> Seq<u8> {
    match frame.codec_config {
        Some(bytes) => bytes,
        None => seq![],
    }
}

pub open spec fn frame_bytes(frame: AccessUnitView) -> Seq<u8> {
    wire::u64_bytes(frame.capture_timestamp_us) + wire::u64_bytes(
        frame.encode_complete_timestamp_us,
    ) + seq![wire::flag_byte(frame.keyframe)] + wire::u32_bytes(config_of(frame).len() as u32)
        + wire::u32_bytes(frame.data.len() as u32) + config_of(frame) + frame.data
}

/// The fields that follow an event's opcode.
pub open spec fn event_fields(event: EventView) -> Seq<u8> {
    match event {
        EventView::Credentials(bytes) => wire::blob_bytes(bytes),
        EventView::CredentialPrompt(ready) => seq![wire::flag_byte(ready)],
        EventView::Files(bytes) => wire::blob_bytes(bytes),
        EventView::Started(started) => started_head(started) + display_frame::catalog_bytes(
            started.displays,
        ),
        EventView::MaintenanceState { agent_input_blocked, blacked_out } => seq![
            wire::flag_byte(agent_input_blocked),
            wire::flag_byte(blacked_out),
        ],
        EventView::MaintenanceError(reason) => wire::text_bytes(reason),
        EventView::Frame(frame) => frame_bytes(frame),
        EventView::Cursor { shape, viewer_controls_input, pointer_display } => seq![
            wire::flag_byte(viewer_controls_input),
        ] + wire::u32_bytes(command::display_code(pointer_display)) + wire::blob_bytes(shape),
        EventView::Clipboard(bytes) => wire::blob_bytes(bytes),
        EventView::Chat(text) => wire::text_bytes(text),
        EventView::Error(message) => wire::text_bytes(message),
        _ => seq![],
    }
}

/// An event's frame.
pub open spec fn event_bytes(event: EventView) -> Seq<u8> {
    seq![event_opcode(event)] + event_fields(event)
}

pub open spec fn started_refusal(started: StartedView) -> Option<WireError> {
    if started.displays.len() > MAX_DISPLAYS {
        Some(WireError::TooLong(Label::DisplayList))
    } else if display_frame::leading_fit(started.displays) < started.displays.len() {
        Some(WireError::TooLong(Label::DisplayName))
    } else {
        None
    }
}

pub open spec fn frame_refusal(frame: AccessUnitView) -> Option<WireError> {
    if config_of(frame).len() > MAX_CODEC_CONFIG_BYTES {
        Some(WireError::TooLong(Label::CodecConfiguration))
    } else if frame.data.len() > MAX_FRAME_BYTES {
        Some(WireError::TooLong(Label::EncodedFrame))
    } else {
        None
    }
}

/// Why an event is not written, if it is not.
pub open spec fn event_refusal(event: EventView, protocol: Protocol, chat_valid: bool) -> Option<
    WireError,
> {
    match event {
        EventView::Credentials(bytes) => command::too_long(
            bytes.len(),
            MAX_CREDENTIAL_RESULT_BYTES,
            Label::CredentialResult,
        ),
        EventView::Files(bytes) => command::too_long(
            bytes.len(),
            MAX_CONTROL_BYTES,
            Label::FileTransfer,
        ),
        EventView::Started(started) => started_refusal(started),
        EventView::MaintenanceError(reason) => command::too_long(
            utf8::encode_utf8(reason).len(),
            MAX_ERROR_BYTES,
            Label::MaintenanceError,
        ),
        EventView::Frame(frame) => frame_refusal(frame),
        EventView::Cursor { shape, .. } => command::too_long(
            shape.len(),
            MAX_CONTROL_BYTES,
            Label::CursorShape,
        ),
        EventView::Clipboard(bytes) => command::too_long(
            bytes.len(),
            protocol.clipboard_wire_bytes,
            Label::ClipboardContent,
        ),
        EventView::Chat(text) => command::chat_refusal(text, protocol, chat_valid),
        EventView::Error(message) => command::too_long(
            utf8::encode_utf8(message).len(),
            MAX_ERROR_BYTES,
            Label::DesktopHelperError,
        ),
        _ => None,
    }
}

/// What a refused event leaves on the pipe: two events are checked only while
/// they are written.
pub open spec fn refused_bytes(event: EventView) -> Seq<u8> {
    match event {
        EventView::Files(_) => seq![event_opcode(event)],
        EventView::Started(started) => if started.displays.len() > MAX_DISPLAYS {
            seq![event_opcode(event)] + started_head(started)
        } else {
            seq![event_opcode(event)] + started_head(started) + (wire::u32_bytes(
                started.displays.len() as u32,
            ) + display_frame::displays_bytes(
                started.displays.take(display_frame::leading_fit(started.displays) as int),
            ))
        },
        _ => seq![],
    }
}

fn check_text(text: &String, maximum: usize, label: Label) -> (result: Result<(), WireError>)
    ensures
        match command::too_long(utf8::encode_utf8(text@).len(), maximum, label) {
            Some(error) => result == Err::<(), WireError>(error),
            None => result is Ok,
        },
{
    checked_len(text.as_str().as_bytes().len(), maximum, label)
}

fn write_format(out: &mut Vec<u8>, format: &ActiveFormat)
    ensures
        final(out)@ == old(out)@ + format_bytes(*format),
{
    write_u32(out, format.width);
    write_u32(out, format.height);
    write_u32(out, format.frames_per_second);
    write_u32(out, format.bitrate_bits_per_second);
    out.push(codec_byte(format.codec));
    out.push(pixel_format_byte(format.pixel_format));
    assert(out@ =~= old(out)@ + format_bytes(*format));
}

fn write_started(out: &mut Vec<u8>, started: &StartedDesktop) -> (result: Result<(), WireError>)
    ensures
        ({
            let event = EventView::Started(started@);
            match started_refusal(started@) {
                None => result is Ok && final(out)@ == old(out)@ + event_bytes(event),
                Some(error) => result == Err::<(), WireError>(error) && final(out)@ == old(out)@
                    + refused_bytes(event),
            }
        }),
{
    let ghost event = EventView::Started(started@);
    let ghost views = model::display_views(started.displays@);
    out.push(1);
    write_format(out, &started.format);
    write_u32(out, started.active_display.id.0);
    assert(out@ =~= old(out)@ + (seq![1u8] + started_head(started@)));
    checked_len(started.displays.len(), MAX_DISPLAYS, Label::DisplayList)?;
    write_u32(out, started.displays.len() as u32);
    let result = write_displays(out, &started.displays);
    proof {
        let fit = display_frame::leading_fit(views) as int;
        if fit == views.len() {
            assert(views.take(fit) =~= views);
            assert(out@ =~= old(out)@ + event_bytes(event));
        } else {
            assert(out@ =~= old(out)@ + refused_bytes(event));
        }
    }
    result
}

fn write_frame(out: &mut Vec<u8>, frame: &EncodedAccessUnit) -> (result: Result<(), WireError>)
    ensures
        ({
            let event = EventView::Frame(frame@);
            match frame_refusal(frame@) {
                None => result is Ok && final(out)@ == old(out)@ + event_bytes(event),
                Some(error) => result == Err::<(), WireError>(error) && final(out)@ == old(out)@,
            }
        }),
{
    let config_len: usize = match &frame.codec_config {
        Some(bytes) => bytes.len(),
        None => 0,
    };
    checked_len(config_len, MAX_CODEC_CONFIG_BYTES, Label::CodecConfiguration)?;
    checked_len(frame.data.len(), MAX_FRAME_BYTES, Label::EncodedFrame)?;
    out.push(2);
    write_u64(out, frame.capture_timestamp_us);
    write_u64(out, frame.encode_complete_timestamp_us);
    write_flag(out, frame.keyframe);
    write_u32(out, config_len as u32);
    write_u32(out, frame.data.len() as u32);
    match &frame.codec_config {
        Some(bytes) => write_bytes(out, bytes.as_slice()),
        None => {},
    }
    write_bytes(out, frame.data.as_slice());
    assert(out@ =~= old(out)@ + event_bytes(EventView::Frame(frame@)));
    Ok(())
}

/// Appends an event's frame. `chat_valid` is the viewer protocol's judgement of
/// a chat text within its limit; it matters for no other event.
pub fn write_event(
    out: &mut Vec<u8>,
    event: &ChildEvent,
    protocol: &Protocol,
    chat_valid: bool,
) -> (result: Result<(), WireError>)
    ensures
        match event_refusal(event@, *protocol, chat_valid) {
            None => result is Ok && final(out)@ == old(out)@ + event_bytes(event@),
            Some(error) => result == Err::<(), WireError>(error) && final(out)@ == old(out)@
                + refused_bytes(event@),
        },
{
    proof {
        assert(old(out)@ + Seq::<u8>::empty() =~= old(out)@);
    }
    match event {
        ChildEvent::CredentialPrompt(ready) => {
            out.push(13);
            write_flag(out, *ready);
        },
        ChildEvent::Credentials(bytes) => {
            checked_len(bytes.len(), MAX_CREDENTIAL_RESULT_BYTES, Label::CredentialResult)?;
            out.push(12);
            write_blob(out, bytes.as_slice());
        },
        ChildEvent::Files(bytes) => {
            out.push(9);
            assert(out@ =~= old(out)@ + refused_bytes(event@));
            checked_len(bytes.len(), MAX_CONTROL_BYTES, Label::FileTransfer)?;
            write_blob(out, bytes.as_slice());
        },
        ChildEvent::Started(started) => {
            return write_started(out, started);
        },
        ChildEvent::MaintenanceError(reason) => {
            check_text(reason, MAX_ERROR_BYTES, Label::MaintenanceError)?;
            out.push(11);
            write_text(out, reason);
        },
        ChildEvent::MaintenanceState { agent_input_blocked, blacked_out } => {
            out.push(10);
            write_flag(out, *agent_input_blocked);
            write_flag(out, *blacked_out);
        },
        ChildEvent::InputStarted => out.push(6),
        ChildEvent::Frame(frame) => {
            return write_frame(out, frame);
        },
        ChildEvent::Cursor { shape, viewer_controls_input, pointer_display } => {
            checked_len(shape.len(), MAX_CONTROL_BYTES, Label::CursorShape)?;
            out.push(5);
            write_flag(out, *viewer_controls_input);
            write_u32(
                out,
                match pointer_display {
                    Some(id) => id.0,
                    None => NO_DISPLAY,
                },
            );
            write_blob(out, shape.as_slice());
        },
        ChildEvent::Clipboard(bytes) => {
            checked_len(bytes.len(), protocol.clipboard_wire_bytes, Label::ClipboardContent)?;
            out.push(7);
            write_blob(out, bytes.as_slice());
        },
        ChildEvent::Chat(text) => {
            command::check_chat(text.as_str(), protocol, chat_valid)?;
            out.push(8);
            write_text(out, text);
        },
        ChildEvent::Error(message) => {
            check_text(message, MAX_ERROR_BYTES, Label::DesktopHelperError)?;
            out.push(3);
            write_text(out, message);
        },
        ChildEvent::Stopped => out.push(4),
    }
    assert(out@ =~= old(out)@ + event_bytes(event@));
    Ok(())
}

pub open spec fn parse_format(s: Seq<u8>) -> wire::Parsed<ActiveFormat> {
    match wire::parse_u32(s) {
        Err(error) => Err(error),
        Ok((width, s)) => match wire::parse_u32(s) {
            Err(error) => Err(error),
            Ok((height, s)) => match wire::parse_u32(s) {
                Err(error) => Err(error),
                Ok((frames_per_second, s)) => match wire::parse_u32(s) {
                    Err(error) => Err(error),
                    Ok((bitrate_bits_per_second, s)) => match wire::parse_codec(s) {
                        Err(error) => Err(error),
                        Ok((codec, s)) => match wire::parse_pixel_format(s) {
                            Err(error) => Err(error),
                            Ok((pixel_format, s)) => Ok(
                                (
                                    ActiveFormat {
                                        width,
                                        height,
                                        frames_per_second,
                                        bitrate_bits_per_second,
                                        codec,
                                        pixel_format,
                                    },
                                    s,
                                ),
                            ),
                        },
                    },
                },
            },
        },
    }
}

/// The first display of a list with this id.
pub open spec fn find_display(displays: Seq<DisplayView>, id: DisplayId) -> Option<DisplayView>
    decreases displays.len(),
{
    if displays.len() == 0 {
        None
    } else if displays[0].id == id {
        Some(displays[0])
    } else {
        find_display(displays.skip(1), id)
    }
}

/// A start report; the active display has to be one of those it lists.
pub open spec fn parse_started(s: Seq<u8>, protocol: Protocol) -> wire::Parsed<EventView> {
    match parse_format(s) {
        Err(error) => Err(error),
        Ok((format, s)) => match wire::parse_u32(s) {
            Err(error) => Err(error),
            Ok((active, s)) => match display_frame::parse_catalog(
                s,
                Label::DisplayList,
                protocol,
            ) {
                Err(error) => Err(error),
                Ok((displays, s)) => match find_display(displays, DisplayId(active)) {
                    None => Err(WireError::UnknownActiveDisplay),
                    Some(active_display) => Ok(
                        (EventView::Started(StartedView { format, displays, active_display }), s),
                    ),
                },
            },
        },
    }
}

pub open spec fn parse_payloads(
    s: Seq<u8>,
    capture_timestamp_us: u64,
    encode_complete_timestamp_us: u64,
    keyframe: bool,
    config_length: int,
    data_length: int,
) -> wire::Parsed<EventView> {
    match wire::parse_exact(s, config_length) {
        Err(error) => Err(error),
        Ok((config, s)) => match wire::parse_exact(s, data_length) {
            Err(error) => Err(error),
            Ok((data, s)) => Ok(
                (
                    EventView::Frame(
                        AccessUnitView {
                            capture_timestamp_us,
                            encode_complete_timestamp_us,
                            keyframe,
                            codec_config: if config.len() == 0 {
                                None
                            } else {
                                Some(config)
                            },
                            data,
                        },
                    ),
                    s,
                ),
            ),
        },
    }
}

/// A video frame; both lengths are checked before either payload is read.
pub open spec fn parse_frame(s: Seq<u8>) -> wire::Parsed<EventView> {
    match wire::parse_u64(s) {
        Err(error) => Err(error),
        Ok((captured, s)) => match wire::parse_u64(s) {
            Err(error) => Err(error),
            Ok((encoded, s)) => match wire::parse_flag(
                s,
                |value: u8| WireError::InvalidKeyframeFlag(value),
            ) {
                Err(error) => Err(error),
                Ok((keyframe, s)) => match wire::parse_length(
                    s,
                    MAX_CODEC_CONFIG_BYTES,
                    Label::CodecConfiguration,
                ) {
                    Err(error) => Err(error),
                    Ok((config_length, s)) => match wire::parse_length(
                        s,
                        MAX_FRAME_BYTES,
                        Label::EncodedFrame,
                    ) {
                        Err(error) => Err(error),
                        Ok((data_length, s)) => parse_payloads(
                            s,
                            captured,
                            encoded,
                            keyframe,
                            config_length as int,
                            data_length as int,
                        ),
                    },
                },
            },
        },
    }
}

pub open spec fn parse_cursor(s: Seq<u8>) -> wire::Parsed<EventView> {
    match wire::parse_bool(s) {
        Err(error) => Err(error),
        Ok((viewer_controls_input, s)) => match wire::parse_u32(s) {
            Err(error) => Err(error),
            Ok((code, s)) => command::parse_as(
                wire::parse_blob(s, MAX_CONTROL_BYTES, Label::CursorShape),
                |shape: Seq<u8>|
                    EventView::Cursor {
                        shape,
                        viewer_controls_input,
                        pointer_display: command::display_of(code),
                    },
            ),
        },
    }
}

/// Two flag bytes; both are read before either is judged.
pub open spec fn parse_maintenance(s: Seq<u8>) -> wire::Parsed<EventView> {
    if s.len() < 2 {
        Err(WireError::UnexpectedEnd)
    } else if s[0] > 1 || s[1] > 1 {
        Err(WireError::InvalidMaintenanceState)
    } else {
        Ok(
            (
                EventView::MaintenanceState {
                    agent_input_blocked: s[0] == 1,
                    blacked_out: s[1] == 1,
                },
                s.skip(2),
            ),
        )
    }
}

/// Reads the fields that follow an opcode.
pub open spec fn parse_fields(opcode: u8, s: Seq<u8>, protocol: Protocol) -> wire::Parsed<
    EventView,
> {
    match opcode {
        1 => parse_started(s, protocol),
        2 => parse_frame(s),
        3 => command::parse_as(
            wire::parse_text(s, MAX_ERROR_BYTES, Label::DesktopHelperError),
            |message: Seq<char>| EventView::Error(message),
        ),
        4 => Ok((EventView::Stopped, s)),
        5 => parse_cursor(s),
        6 => Ok((EventView::InputStarted, s)),
        7 => command::parse_as(
            wire::parse_blob(s, protocol.clipboard_wire_bytes, Label::ClipboardContent),
            |bytes: Seq<u8>| EventView::Clipboard(bytes),
        ),
        8 => command::parse_as(
            wire::parse_text(s, protocol.chat_text_bytes, Label::ChatText),
            |text: Seq<char>| EventView::Chat(text),
        ),
        9 => command::parse_as(
            wire::parse_blob(s, MAX_CONTROL_BYTES, Label::FileTransfer),
            |bytes: Seq<u8>| EventView::Files(bytes),
        ),
        10 => parse_maintenance(s),
        11 => command::parse_as(
            wire::parse_text(s, MAX_ERROR_BYTES, Label::MaintenanceError),
            |reason: Seq<char>| EventView::MaintenanceError(reason),
        ),
        12 => command::parse_as(
            wire::parse_blob(s, MAX_CREDENTIAL_RESULT_BYTES, Label::CredentialResult),
            |bytes: Seq<u8>| EventView::Credentials(bytes),
        ),
        13 => command::parse_as(
            wire::parse_flag(s, |value: u8| WireError::InvalidCredentialPromptState),
            |ready: bool| EventView::CredentialPrompt(ready),
        ),
        _ => Err(WireError::UnknownEvent(opcode)),
    }
}

/// The event at the head of a byte sequence.
pub open spec fn parse_event(s: Seq<u8>, protocol: Protocol) -> wire::Parsed<EventView> {
    match wire::parse_u8(s) {
        Err(error) => Err(error),
        Ok((opcode, s)) => parse_fields(opcode, s, protocol),
    }
}

fn read_format(reader: &mut PipeReader) -> (result: Result<ActiveFormat, WireError>)
    ensures
        wire::reads(final(reader).rest(), result, parse_format(old(reader).rest())),
{
    let width = read_u32(reader)?;
    let height = read_u32(reader)?;
    let frames_per_second = read_u32(reader)?;
    let bitrate_bits_per_second = read_u32(reader)?;
    let codec = read_codec(reader)?;
    let pixel_format = read_pixel_format(reader)?;
    Ok(
        ActiveFormat {
            width,
            height,
            frames_per_second,
            bitrate_bits_per_second,
            codec,
            pixel_format,
        },
    )
}

proof fn lemma_find_skip(displays: Seq<DisplayView>, id: DisplayId, from: int)
    requires
        0 <= from <= displays.len(),
        forall|i: int| 0 <= i < from ==> (#[trigger] displays[i]).id != id,
    ensures
        find_display(displays, id) == find_display(displays.skip(from), id),
    decreases from,
{
    if from == 0 {
        assert(displays.skip(0) =~= displays);
    } else {
        lemma_find_skip(displays.skip(1), id, from - 1);
        assert(displays.skip(1).skip(from - 1) =~= displays.skip(from));
    }
}

/// The index of the first display with this id.
pub fn position_of(displays: &Vec<Display>, id: DisplayId) -> (position: Option<usize>)
    ensures
        match position {
            Some(index) => index < displays@.len() && find_display(
                model::display_views(displays@),
                id,
            ) == Some(displays@[index as int]@) && displays@[index as int].id == id,
            None => find_display(model::display_views(displays@), id) is None && forall|i: int|
                0 <= i < displays@.len() ==> (#[trigger] displays@[i]).id != id,
        },
{
    let ghost views = model::display_views(displays@);
    let mut index: usize = 0;
    while index < displays.len()
        invariant
            index <= displays.len(),
            views == model::display_views(displays@),
            forall|i: int| 0 <= i < index ==> (#[trigger] displays@[i]).id != id,
        decreases displays.len() - index,
    {
        if displays[index].id == id {
            proof {
                assert forall|i: int| 0 <= i < index implies (#[trigger] views[i]).id != id by {
                    assert(views[i] == displays@[i]@);
                }
                lemma_find_skip(views, id, index as int);
                assert(views.skip(index as int)[0] == displays@[index as int]@);
            }
            return Some(index);
        }
        index += 1;
    }
    proof {
        assert forall|i: int| 0 <= i < index implies (#[trigger] views[i]).id != id by {
            assert(views[i] == displays@[i]@);
        }
        lemma_find_skip(views, id, views.len() as int);
    }
    None
}

fn read_started(reader: &mut PipeReader, protocol: &Protocol) -> (result: Result<
    ChildEvent,
    WireError,
>)
    ensures
        wire::reads_view(
            final(reader).rest(),
            result,
            parse_started(old(reader).rest(), *protocol),
        ),
{
    let format = read_format(reader)?;
    let active = DisplayId(read_u32(reader)?);
    let displays = read_catalog(reader, Label::DisplayList, protocol)?;
    match position_of(&displays, active) {
        Some(index) => {
            let active_display = displays[index].clone();
            Ok(ChildEvent::Started(StartedDesktop { format, displays, active_display }))
        },
        None => Err(WireError::UnknownActiveDisplay),
    }
}

fn read_frame(reader: &mut PipeReader) -> (result: Result<ChildEvent, WireError>)
    ensures
        wire::reads_view(final(reader).rest(), result, parse_frame(old(reader).rest())),
{
    let capture_timestamp_us = read_u64(reader)?;
    let encode_complete_timestamp_us = read_u64(reader)?;
    let keyframe = match read_u8(reader)? {
        0 => false,
        1 => true,
        value => {
            return Err(WireError::InvalidKeyframeFlag(value));
        },
    };
    let config_length = bounded_len(
        read_u32(reader)?,
        MAX_CODEC_CONFIG_BYTES,
        Label::CodecConfiguration,
    )?;
    let data_length = bounded_len(read_u32(reader)?, MAX_FRAME_BYTES, Label::EncodedFrame)?;
    let config = reader.take(config_length)?;
    let data = reader.take(data_length)?;
    let codec_config = if config.len() == 0 {
        None
    } else {
        Some(config)
    };
    Ok(
        ChildEvent::Frame(
            EncodedAccessUnit {
                capture_timestamp_us,
                encode_complete_timestamp_us,
                keyframe,
                codec_config,
                data,
            },
        ),
    )
}

fn read_cursor(reader: &mut PipeReader) -> (result: Result<ChildEvent, WireError>)
    ensures
        wire::reads_view(final(reader).rest(), result, parse_cursor(old(reader).rest())),
{
    let viewer_controls_input = read_bool(reader)?;
    let code = read_u32(reader)?;
    let shape = read_blob(reader, MAX_CONTROL_BYTES, Label::CursorShape)?;
    let pointer_display = if code == NO_DISPLAY {
        None
    } else {
        Some(DisplayId(code))
    };
    Ok(ChildEvent::Cursor { shape, viewer_controls_input, pointer_display })
}

/// Reads one event and moves past it; after an error the reader's position
/// means nothing.
pub fn read_event(reader: &mut PipeReader, protocol: &Protocol) -> (result: Result<
    ChildEvent,
    WireError,
>)
    ensures
        wire::reads_view(
            final(reader).rest(),
            result,
            parse_event(old(reader).rest(), *protocol),
        ),
{
    match read_u8(reader)? {
        1 => read_started(reader, protocol),
        2 => read_frame(reader),
        3 => Ok(ChildEvent::Error(read_text(reader, MAX_ERROR_BYTES, Label::DesktopHelperError)?)),
        4 => Ok(ChildEvent::Stopped),
        5 => read_cursor(reader),
        6 => Ok(ChildEvent::InputStarted),
        7 => Ok(
            ChildEvent::Clipboard(
                read_blob(reader, protocol.clipboard_wire_bytes, Label::ClipboardContent)?,
            ),
        ),
        8 => Ok(ChildEvent::Chat(read_text(reader, protocol.chat_text_bytes, Label::ChatText)?)),
        9 => Ok(ChildEvent::Files(read_blob(reader, MAX_CONTROL_BYTES, Label::FileTransfer)?)),
        10 => {
            let ghost fields = reader.rest();
            let blocked = read_u8(reader)?;
            let blacked = read_u8(reader)?;
            if blocked > 1 || blacked > 1 {
                return Err(WireError::InvalidMaintenanceState);
            }
            assert(fields.skip(1).skip(1) =~= fields.skip(2));
            Ok(
                ChildEvent::MaintenanceState {
                    agent_input_blocked: blocked == 1,
                    blacked_out: blacked == 1,
                },
            )
        },
        11 => Ok(
            ChildEvent::MaintenanceError(
                read_text(reader, MAX_ERROR_BYTES, Label::MaintenanceError)?,
            ),
        ),
        12 => Ok(
            ChildEvent::Credentials(
                read_blob(reader, MAX_CREDENTIAL_RESULT_BYTES, Label::CredentialResult)?,
            ),
        ),
        13 => match read_u8(reader)? {
            0 => Ok(ChildEvent::CredentialPrompt(false)),
            1 => Ok(ChildEvent::CredentialPrompt(true)),
            _ => Err(WireError::InvalidCredentialPromptState),
        },
        opcode => Err(WireError::UnknownEvent(opcode)),
    }
}

/// Why a framed event is not accepted once its payload has been judged.
pub open spec fn payload_refusal(event: EventView, verdict: PayloadVerdict) -> Option<WireError> {
    match (event, verdict) {
        (_, PayloadVerdict::Expected) => None,
        (EventView::Cursor { .. }, PayloadVerdict::Unexpected) => Some(WireError::NotCursor),
        (EventView::Cursor { .. }, PayloadVerdict::Undecodable) => Some(
            WireError::Undecodable(Label::CursorShape),
        ),
        (EventView::Files(_), PayloadVerdict::Unexpected) => Some(WireError::NotFileTransfer),
        (EventView::Files(_), PayloadVerdict::Undecodable) => Some(
            WireError::Undecodable(Label::FileTransfer),
        ),
        (EventView::Clipboard(_), _) => Some(WireError::Undecodable(Label::ClipboardContent)),
        (EventView::Credentials(_), _) => Some(WireError::Undecodable(Label::CredentialResult)),
        (EventView::Chat(_), _) => Some(WireError::InvalidChatText),
        _ => None,
    }
}

/// The second half of reading an event: what the decoder says of a cursor,
/// file, clipboard, credential or chat payload decides whether the event stands.
pub fn accept_event(event: ChildEvent, verdict: PayloadVerdict) -> (result: Result<
    ChildEvent,
    WireError,
>)
    ensures
        match payload_refusal(event@, verdict) {
            None => result == Ok::<ChildEvent, WireError>(event),
            Some(error) => result == Err::<ChildEvent, WireError>(error),
        },
{
    match (&event, verdict) {
        (_, PayloadVerdict::Expected) => Ok(event),
        (ChildEvent::Cursor { .. }, PayloadVerdict::Unexpected) => Err(WireError::NotCursor),
        (ChildEvent::Cursor { .. }, PayloadVerdict::Undecodable) => Err(
            WireError::Undecodable(Label::CursorShape),
        ),
        (ChildEvent::Files(_), PayloadVerdict::Unexpected) => Err(WireError::NotFileTransfer),
        (ChildEvent::Files(_), PayloadVerdict::Undecodable) => Err(
            WireError::Undecodable(Label::FileTransfer),
        ),
        (ChildEvent::Clipboard(_), _) => Err(WireError::Undecodable(Label::ClipboardContent)),
        (ChildEvent::Credentials(_), _) => Err(WireError::Undecodable(Label::CredentialResult)),
        (ChildEvent::Chat(_), _) => Err(WireError::InvalidChatText),
        _ => Ok(event),
    }
}

proof fn lemma_format(format: ActiveFormat, rest: Seq<u8>)
    ensures
        parse_format(format_bytes(format) + rest) == Ok::<(ActiveFormat, Seq<u8>), WireError>(
            (format, rest),
        ),
{
    let width_bytes = wire::u32_bytes(format.width);
    let height_bytes = wire::u32_bytes(format.height);
    let frames_bytes = wire::u32_bytes(format.frames_per_second);
    let bitrate_bytes = wire::u32_bytes(format.bitrate_bits_per_second);
    let codes = seq![
        wire::codec_code(format.codec),
        wire::pixel_format_code(format.pixel_format),
    ];
    let pixel_format = seq![wire::pixel_format_code(format.pixel_format)] + rest;
    let codec = seq![wire::codec_code(format.codec)] + pixel_format;
    let bitrate = bitrate_bytes + codec;
    let frames = frames_bytes + bitrate;
    let height = height_bytes + frames;
    assert(codes + rest =~= codec);
    wire::lemma_concat(width_bytes + height_bytes + frames_bytes + bitrate_bytes, codes, rest);
    wire::lemma_concat(width_bytes + height_bytes + frames_bytes, bitrate_bytes, codec);
    wire::lemma_concat(width_bytes + height_bytes, frames_bytes, bitrate);
    wire::lemma_concat(width_bytes, height_bytes, frames);
    wire::lemma_u32(format.width, height);
    wire::lemma_u32(format.height, frames);
    wire::lemma_u32(format.frames_per_second, bitrate);
    wire::lemma_u32(format.bitrate_bits_per_second, codec);
    wire::lemma_u8(wire::codec_code(format.codec), pixel_format);
    wire::lemma_u8(wire::pixel_format_code(format.pixel_format), rest);
}

proof fn lemma_format_canonical(s: Seq<u8>)
    requires
        parse_format(s) is Ok,
    ensures
        ({
            let (format, rest) = parse_format(s)->Ok_0;
            s == format_bytes(format) + rest
        }),
{
    let (format, rest) = parse_format(s)->Ok_0;
    wire::lemma_u32_canonical(s);
    let s1 = s.skip(4);
    wire::lemma_u32_canonical(s1);
    let s2 = s1.skip(4);
    wire::lemma_u32_canonical(s2);
    let s3 = s2.skip(4);
    wire::lemma_u32_canonical(s3);
    let s4 = s3.skip(4);
    let codes = seq![
        wire::codec_code(format.codec),
        wire::pixel_format_code(format.pixel_format),
    ];
    assert(s4 =~= codes + rest);
    let width = wire::u32_bytes(format.width);
    let height = wire::u32_bytes(format.height);
    let frames = wire::u32_bytes(format.frames_per_second);
    let bitrate = wire::u32_bytes(format.bitrate_bits_per_second);
    wire::lemma_concat(width + height + frames + bitrate, codes, rest);
    wire::lemma_concat(width + height + frames, bitrate, s4);
    wire::lemma_concat(width + height, frames, s3);
    wire::lemma_concat(width, height, s2);
}

proof fn lemma_format_carries_over(s: Seq<u8>, more: Seq<u8>)
    ensures
        wire::carries_over(parse_format(s), parse_format(s + more), more),
{
    wire::lemma_u32_carries_over(s, more);
    if s.len() >= 4 {
        let s1 = s.skip(4);
        wire::lemma_u32_carries_over(s1, more);
        if s1.len() >= 4 {
            let s2 = s1.skip(4);
            wire::lemma_u32_carries_over(s2, more);
            if s2.len() >= 4 {
                let s3 = s2.skip(4);
                wire::lemma_u32_carries_over(s3, more);
                if s3.len() >= 4 {
                    let s4 = s3.skip(4);
                    wire::lemma_u8_carries_over(s4, more);
                    if s4.len() >= 1 {
                        wire::lemma_u8_carries_over(s4.skip(1), more);
                    }
                }
            }
        }
    }
}

/// Whether an event is one that its reader gives back as it is: its writer does
/// not refuse it, its displays carry the sessions that frames imply, its active
/// display is the first listed with that id, a codec configuration is not empty,
/// and no pointer is on the display that stands for none.
pub open spec fn event_readable(event: EventView, protocol: Protocol) -> bool {
    &&& event_refusal(event, protocol, true) is None
    &&& event matches EventView::Started(started) ==> {
        &&& display_frame::displays_readable(started.displays, protocol)
        &&& find_display(started.displays, started.active_display.id) == Some(
            started.active_display,
        )
    }
    &&& event matches EventView::Frame(frame) ==> (frame.codec_config matches Some(config)
        ==> config.len() > 0)
    &&& event matches EventView::Cursor { pointer_display, .. } ==> pointer_display != Some(
        DisplayId(NO_DISPLAY),
    )
}

proof fn lemma_started(started: StartedView, rest: Seq<u8>, protocol: Protocol)
    requires
        event_readable(EventView::Started(started), protocol),
    ensures
        parse_started(event_fields(EventView::Started(started)) + rest, protocol) == Ok::<
            (EventView, Seq<u8>),
            WireError,
        >((EventView::Started(started), rest)),
{
    let displays = display_frame::catalog_bytes(started.displays) + rest;
    let active = wire::u32_bytes(started.active_display.id.0) + displays;
    wire::lemma_concat(
        started_head(started),
        display_frame::catalog_bytes(started.displays),
        rest,
    );
    wire::lemma_concat(
        format_bytes(started.format),
        wire::u32_bytes(started.active_display.id.0),
        displays,
    );
    lemma_format(started.format, active);
    wire::lemma_u32(started.active_display.id.0, displays);
    display_frame::catalog_round_trip(started.displays, rest, Label::DisplayList, protocol);
}

proof fn lemma_frame(frame: AccessUnitView, rest: Seq<u8>, protocol: Protocol)
    requires
        event_readable(EventView::Frame(frame), protocol),
    ensures
        parse_frame(frame_bytes(frame) + rest) == Ok::<(EventView, Seq<u8>), WireError>(
            (EventView::Frame(frame), rest),
        ),
{
    let config = config_of(frame);
    let data = frame.data + rest;
    let payloads = config + data;
    let data_length = wire::u32_bytes(frame.data.len() as u32) + payloads;
    let config_length = wire::u32_bytes(config.len() as u32) + data_length;
    let keyframe = seq![wire::flag_byte(frame.keyframe)] + config_length;
    let encoded = wire::u64_bytes(frame.encode_complete_timestamp_us) + keyframe;
    wire::lemma_seven_fields(
        wire::u64_bytes(frame.capture_timestamp_us),
        wire::u64_bytes(frame.encode_complete_timestamp_us),
        seq![wire::flag_byte(frame.keyframe)],
        wire::u32_bytes(config.len() as u32),
        wire::u32_bytes(frame.data.len() as u32),
        config,
        frame.data,
        rest,
    );
    wire::lemma_u64(frame.capture_timestamp_us, encoded);
    wire::lemma_u64(frame.encode_complete_timestamp_us, keyframe);
    wire::lemma_u8(wire::flag_byte(frame.keyframe), config_length);
    wire::lemma_u32(config.len() as u32, data_length);
    wire::lemma_u32(frame.data.len() as u32, payloads);
    assert(payloads.take(config.len() as int) =~= config);
    assert(payloads.skip(config.len() as int) =~= data);
    assert(data.take(frame.data.len() as int) =~= frame.data);
    assert(data.skip(frame.data.len() as int) =~= rest);
}

proof fn lemma_cursor(
    shape: Seq<u8>,
    viewer_controls_input: bool,
    pointer_display: Option<DisplayId>,
    rest: Seq<u8>,
    protocol: Protocol,
)
    requires
        event_readable(
            EventView::Cursor { shape, viewer_controls_input, pointer_display },
            protocol,
        ),
    ensures
        ({
            let event = EventView::Cursor { shape, viewer_controls_input, pointer_display };
            parse_cursor(event_fields(event) + rest) == Ok::<(EventView, Seq<u8>), WireError>(
                (event, rest),
            )
        }),
{
    let event = EventView::Cursor { shape, viewer_controls_input, pointer_display };
    let flag = seq![wire::flag_byte(viewer_controls_input)];
    let code = command::display_code(pointer_display);
    let after_code = wire::blob_bytes(shape) + rest;
    let after_flag = wire::u32_bytes(code) + after_code;
    wire::lemma_concat(flag + wire::u32_bytes(code), wire::blob_bytes(shape), rest);
    wire::lemma_concat(flag, wire::u32_bytes(code), after_code);
    wire::lemma_u8(wire::flag_byte(viewer_controls_input), after_flag);
    wire::lemma_u32(code, after_code);
    wire::lemma_blob(shape, rest, MAX_CONTROL_BYTES, Label::CursorShape);
}

/// An event that was written is read back unchanged, and the reader then stands
/// exactly at the next frame.
pub proof fn event_round_trip(event: EventView, rest: Seq<u8>, protocol: Protocol)
    requires
        event_readable(event, protocol),
    ensures
        parse_event(event_bytes(event) + rest, protocol) == Ok::<(EventView, Seq<u8>), WireError>(
            (event, rest),
        ),
{
    let fields = event_fields(event) + rest;
    wire::lemma_concat(seq![event_opcode(event)], event_fields(event), rest);
    wire::lemma_u8(event_opcode(event), fields);
    match event {
        EventView::Credentials(bytes) => wire::lemma_blob(
            bytes,
            rest,
            MAX_CREDENTIAL_RESULT_BYTES,
            Label::CredentialResult,
        ),
        EventView::CredentialPrompt(ready) => wire::lemma_u8(wire::flag_byte(ready), rest),
        EventView::Files(bytes) => wire::lemma_blob(
            bytes,
            rest,
            MAX_CONTROL_BYTES,
            Label::FileTransfer,
        ),
        EventView::Started(started) => lemma_started(started, rest, protocol),
        EventView::MaintenanceState { .. } => {
            assert(fields.skip(2) =~= rest);
        },
        EventView::MaintenanceError(reason) => wire::lemma_text(
            reason,
            rest,
            MAX_ERROR_BYTES,
            Label::MaintenanceError,
        ),
        EventView::Frame(frame) => lemma_frame(frame, rest, protocol),
        EventView::Cursor { shape, viewer_controls_input, pointer_display } => lemma_cursor(
            shape,
            viewer_controls_input,
            pointer_display,
            rest,
            protocol,
        ),
        EventView::Clipboard(bytes) => wire::lemma_blob(
            bytes,
            rest,
            protocol.clipboard_wire_bytes,
            Label::ClipboardContent,
        ),
        EventView::Chat(text) => wire::lemma_text(
            text,
            rest,
            protocol.chat_text_bytes,
            Label::ChatText,
        ),
        EventView::Error(message) => wire::lemma_text(
            message,
            rest,
            MAX_ERROR_BYTES,
            Label::DesktopHelperError,
        ),
        _ => {
            assert(fields =~= rest);
        },
    }
}

/// An event as its reader gives it: displays belong to the sessions that their
/// ids imply, an empty codec configuration is none, and the display that stands
/// for none is none.
pub open spec fn framed(event: EventView, protocol: Protocol) -> EventView {
    match event {
        EventView::Started(started) => EventView::Started(
            StartedView {
                format: started.format,
                displays: display_frame::framed_displays(started.displays, protocol),
                active_display: display_frame::framed(started.active_display, protocol),
            },
        ),
        EventView::Frame(frame) => EventView::Frame(
            AccessUnitView {
                codec_config: if config_of(frame).len() == 0 {
                    None
                } else {
                    frame.codec_config
                },
                ..frame
            },
        ),
        EventView::Cursor { shape, viewer_controls_input, pointer_display } => EventView::Cursor {
            shape,
            viewer_controls_input,
            pointer_display: command::display_of(command::display_code(pointer_display)),
        },
        _ => event,
    }
}

proof fn lemma_find_framed(displays: Seq<DisplayView>, id: DisplayId, protocol: Protocol)
    ensures
        find_display(display_frame::framed_displays(displays, protocol), id) == (match find_display(
            displays,
            id,
        ) {
            Some(display) => Some(display_frame::framed(display, protocol)),
            None => None,
        }),
    decreases displays.len(),
{
    if displays.len() > 0 && displays[0].id != id {
        lemma_find_framed(displays.skip(1), id, protocol);
        assert(display_frame::framed_displays(displays, protocol).skip(1)
            =~= display_frame::framed_displays(displays.skip(1), protocol));
    }
}

/// Every event that its writer accepts is read back, with all that it says, and
/// the reader then stands exactly at the next frame; of a start report, if its
/// active display is the first that it lists with that id. It is accepted once
/// its payload has been found to be what it is.
pub proof fn written_events_are_read_back(
    event: EventView,
    rest: Seq<u8>,
    protocol: Protocol,
    chat_valid: bool,
)
    requires
        event_refusal(event, protocol, chat_valid) is None,
        event matches EventView::Started(started) ==> find_display(
            started.displays,
            started.active_display.id,
        ) == Some(started.active_display),
    ensures
        parse_event(event_bytes(event) + rest, protocol) == Ok::<(EventView, Seq<u8>), WireError>(
            (framed(event, protocol), rest),
        ),
        payload_refusal(framed(event, protocol), PayloadVerdict::Expected) is None,
        event matches EventView::Frame(frame) ==> (frame.codec_config != Some(Seq::<u8>::empty())
            ==> framed(event, protocol) == event),
        event matches EventView::Cursor { pointer_display, .. } ==> (pointer_display != Some(
            DisplayId(NO_DISPLAY),
        ) ==> framed(event, protocol) == event),
        !(event is Started || event is Frame || event is Cursor) ==> framed(event, protocol)
            == event,
{
    let read = framed(event, protocol);
    match event {
        EventView::Started(started) => {
            display_frame::lemma_framed(started.displays, protocol);
            lemma_find_framed(started.displays, started.active_display.id, protocol);
        },
        EventView::Frame(frame) => {
            assert(config_of(read->Frame_0) =~= config_of(frame));
            if let Some(config) = frame.codec_config {
                if config.len() == 0 {
                    assert(config =~= Seq::<u8>::empty());
                }
            }
        },
        _ => {},
    }
    assert(event_bytes(read) == event_bytes(event));
    event_round_trip(read, rest, protocol);
}

proof fn lemma_find_has_id(displays: Seq<DisplayView>, id: DisplayId)
    ensures
        find_display(displays, id) matches Some(display) ==> display.id == id,
    decreases displays.len(),
{
    if displays.len() > 0 && displays[0].id != id {
        lemma_find_has_id(displays.skip(1), id);
    }
}

#[verifier::spinoff_prover]
proof fn lemma_started_canonical(s: Seq<u8>, protocol: Protocol)
    requires
        parse_started(s, protocol) is Ok,
    ensures
        ({
            let (event, rest) = parse_started(s, protocol)->Ok_0;
            &&& event_opcode(event) == 1
            &&& s == event_fields(event) + rest
            &&& event_readable(event, protocol)
        }),
{
    let (event, rest) = parse_started(s, protocol)->Ok_0;
    lemma_format_canonical(s);
    let s1 = parse_format(s)->Ok_0.1;
    wire::lemma_u32_canonical(s1);
    let active = wire::u32_of(s1);
    let s2 = s1.skip(4);
    display_frame::lemma_catalog_canonical(s2, Label::DisplayList, protocol);
    let displays = display_frame::parse_catalog(s2, Label::DisplayList, protocol)->Ok_0.0;
    lemma_find_has_id(displays, DisplayId(active));
    let format = format_bytes(parse_format(s)->Ok_0.0);
    let id = wire::u32_bytes(active);
    let catalog = display_frame::catalog_bytes(displays);
    wire::lemma_concat(format + id, catalog, rest);
    wire::lemma_concat(format, id, catalog + rest);
}

proof fn lemma_payloads_canonical(
    s: Seq<u8>,
    captured: u64,
    encoded: u64,
    keyframe: bool,
    config_length: int,
    data_length: int,
)
    requires
        0 <= config_length,
        0 <= data_length,
        parse_payloads(s, captured, encoded, keyframe, config_length, data_length) is Ok,
    ensures
        ({
            let (event, rest) = parse_payloads(
                s,
                captured,
                encoded,
                keyframe,
                config_length,
                data_length,
            )->Ok_0;
            &&& event matches EventView::Frame(frame)
            &&& frame.capture_timestamp_us == captured
            &&& frame.encode_complete_timestamp_us == encoded
            &&& frame.keyframe == keyframe
            &&& config_of(frame).len() == config_length
            &&& frame.data.len() == data_length
            &&& frame.codec_config matches Some(config) ==> config.len() > 0
            &&& s == config_of(frame) + (frame.data + rest)
        }),
{
    let (event, rest) = parse_payloads(
        s,
        captured,
        encoded,
        keyframe,
        config_length,
        data_length,
    )->Ok_0;
    let frame = event->Frame_0;
    assert(config_of(frame) =~= s.take(config_length));
    assert(s.skip(config_length) =~= frame.data + rest);
    assert(s =~= config_of(frame) + (frame.data + rest));
}

#[verifier::spinoff_prover]
proof fn lemma_frame_canonical(s: Seq<u8>, protocol: Protocol)
    requires
        parse_frame(s) is Ok,
    ensures
        ({
            let (event, rest) = parse_frame(s)->Ok_0;
            &&& event_opcode(event) == 2
            &&& s == event_fields(event) + rest
            &&& event_readable(event, protocol)
        }),
{
    let (event, rest) = parse_frame(s)->Ok_0;
    let frame = event->Frame_0;
    let s1 = s.skip(8);
    let s2 = s1.skip(8);
    let s3 = s2.skip(1);
    let s4 = s3.skip(4);
    let s5 = s4.skip(4);
    lemma_payloads_canonical(
        s5,
        wire::u64_of(s),
        wire::u64_of(s1),
        s2[0] == 1,
        wire::u32_of(s3) as int,
        wire::u32_of(s4) as int,
    );
    wire::lemma_u64_canonical(s);
    wire::lemma_u64_canonical(s1);
    wire::lemma_u8_canonical(s2);
    wire::lemma_u32_canonical(s3);
    wire::lemma_u32_canonical(s4);
    wire::lemma_seven_fields(
        wire::u64_bytes(frame.capture_timestamp_us),
        wire::u64_bytes(frame.encode_complete_timestamp_us),
        seq![wire::flag_byte(frame.keyframe)],
        wire::u32_bytes(config_of(frame).len() as u32),
        wire::u32_bytes(frame.data.len() as u32),
        config_of(frame),
        frame.data,
        rest,
    );
}

proof fn lemma_cursor_canonical(s: Seq<u8>, protocol: Protocol)
    requires
        parse_cursor(s) is Ok,
    ensures
        ({
            let (event, rest) = parse_cursor(s)->Ok_0;
            &&& event_opcode(event) == 5
            &&& s == event_fields(event) + rest
            &&& event_readable(event, protocol)
        }),
{
    let (event, rest) = parse_cursor(s)->Ok_0;
    wire::lemma_u8_canonical(s);
    let s1 = s.skip(1);
    wire::lemma_u32_canonical(s1);
    wire::lemma_blob_canonical(s1.skip(4), MAX_CONTROL_BYTES, Label::CursorShape);
    assert(s =~= event_fields(event) + rest);
}

proof fn lemma_fields_canonical(opcode: u8, s: Seq<u8>, protocol: Protocol)
    requires
        parse_fields(opcode, s, protocol) is Ok,
    ensures
        ({
            let (event, rest) = parse_fields(opcode, s, protocol)->Ok_0;
            &&& event_opcode(event) == opcode
            &&& s == event_fields(event) + rest
            &&& event_readable(event, protocol)
        }),
{
    let (event, rest) = parse_fields(opcode, s, protocol)->Ok_0;
    match opcode {
        1 => lemma_started_canonical(s, protocol),
        2 => lemma_frame_canonical(s, protocol),
        3 => wire::lemma_text_canonical(s, MAX_ERROR_BYTES, Label::DesktopHelperError),
        5 => lemma_cursor_canonical(s, protocol),
        7 => wire::lemma_blob_canonical(
            s,
            protocol.clipboard_wire_bytes,
            Label::ClipboardContent,
        ),
        8 => wire::lemma_text_canonical(s, protocol.chat_text_bytes, Label::ChatText),
        9 => wire::lemma_blob_canonical(s, MAX_CONTROL_BYTES, Label::FileTransfer),
        10 => {
            assert(s =~= event_fields(event) + rest);
        },
        11 => wire::lemma_text_canonical(s, MAX_ERROR_BYTES, Label::MaintenanceError),
        12 => wire::lemma_blob_canonical(s, MAX_CREDENTIAL_RESULT_BYTES, Label::CredentialResult),
        13 => wire::lemma_u8_canonical(s),
        _ => {
            assert(s =~= Seq::<u8>::empty() + rest);
        },
    }
}

/// Whatever a reader accepts is the frame of the event it returns: no two byte
/// sequences stand for one event, and every accepted event is readable.
pub proof fn event_canonical(s: Seq<u8>, protocol: Protocol)
    requires
        parse_event(s, protocol) is Ok,
    ensures
        ({
            let (event, rest) = parse_event(s, protocol)->Ok_0;
            s == event_bytes(event) + rest && event_readable(event, protocol)
        }),
{
    let (event, rest) = parse_event(s, protocol)->Ok_0;
    wire::lemma_u8_canonical(s);
    lemma_fields_canonical(s[0], s.skip(1), protocol);
    assert(s =~= event_bytes(event) + rest);
}

proof fn lemma_started_carries_over(s: Seq<u8>, more: Seq<u8>, protocol: Protocol)
    ensures
        wire::carries_over(parse_started(s, protocol), parse_started(s + more, protocol), more),
{
    lemma_format_carries_over(s, more);
    if let Ok((format, s1)) = parse_format(s) {
        wire::lemma_u32_carries_over(s1, more);
        if s1.len() >= 4 {
            let s2 = s1.skip(4);
            wire::lemma_u32_carries_over(s2, more);
            if s2.len() >= 4 {
                display_frame::lemma_displays_carry_over(
                    s2.skip(4),
                    more,
                    wire::u32_of(s2) as nat,
                    protocol,
                );
            }
        }
    }
}

proof fn lemma_exact_carries_over(s: Seq<u8>, more: Seq<u8>, length: int)
    requires
        length >= 0,
    ensures
        wire::carries_over(wire::parse_exact(s, length), wire::parse_exact(s + more, length), more),
{
    if s.len() >= length {
        assert((s + more).take(length) =~= s.take(length));
        assert((s + more).skip(length) =~= s.skip(length) + more);
    }
}

proof fn lemma_frame_carries_over(s: Seq<u8>, more: Seq<u8>)
    ensures
        wire::carries_over(parse_frame(s), parse_frame(s + more), more),
{
    wire::lemma_u64_carries_over(s, more);
    if s.len() >= 8 {
        let s1 = s.skip(8);
        wire::lemma_u64_carries_over(s1, more);
        if s1.len() >= 8 {
            let s2 = s1.skip(8);
            wire::lemma_u8_carries_over(s2, more);
            if s2.len() >= 1 {
                let s3 = s2.skip(1);
                wire::lemma_u32_carries_over(s3, more);
                if s3.len() >= 4 {
                    let s4 = s3.skip(4);
                    wire::lemma_u32_carries_over(s4, more);
                    if s4.len() >= 4 {
                        let s5 = s4.skip(4);
                        let config_length = wire::u32_of(s3) as int;
                        lemma_exact_carries_over(s5, more, config_length);
                        if s5.len() >= config_length {
                            lemma_exact_carries_over(
                                s5.skip(config_length),
                                more,
                                wire::u32_of(s4) as int,
                            );
                        }
                    }
                }
            }
        }
    }
}

/// More bytes change nothing about a frame that is complete or wrong: only an
/// early end is open, so a reader may retry when the pipe delivers more.
pub proof fn event_carries_over(s: Seq<u8>, more: Seq<u8>, protocol: Protocol)
    ensures
        wire::carries_over(parse_event(s, protocol), parse_event(s + more, protocol), more),
{
    wire::lemma_u8_carries_over(s, more);
    if s.len() >= 1 {
        let fields = s.skip(1);
        match s[0] {
            1 => lemma_started_carries_over(fields, more, protocol),
            2 => lemma_frame_carries_over(fields, more),
            3 => wire::lemma_text_carries_over(
                fields,
                more,
                MAX_ERROR_BYTES,
                Label::DesktopHelperError,
            ),
            5 => {
                wire::lemma_u8_carries_over(fields, more);
                if fields.len() >= 1 {
                    wire::lemma_u32_carries_over(fields.skip(1), more);
                    if fields.skip(1).len() >= 4 {
                        wire::lemma_blob_carries_over(
                            fields.skip(1).skip(4),
                            more,
                            MAX_CONTROL_BYTES,
                            Label::CursorShape,
                        );
                    }
                }
            },
            7 => wire::lemma_blob_carries_over(
                fields,
                more,
                protocol.clipboard_wire_bytes,
                Label::ClipboardContent,
            ),
            8 => wire::lemma_text_carries_over(
                fields,
                more,
                protocol.chat_text_bytes,
                Label::ChatText,
            ),
            9 => wire::lemma_blob_carries_over(
                fields,
                more,
                MAX_CONTROL_BYTES,
                Label::FileTransfer,
            ),
            10 => {
                if fields.len() >= 2 {
                    assert((fields + more).skip(2) =~= fields.skip(2) + more);
                }
            },
            11 => wire::lemma_text_carries_over(
                fields,
                more,
                MAX_ERROR_BYTES,
                Label::MaintenanceError,
            ),
            12 => wire::lemma_blob_carries_over(
                fields,
                more,
                MAX_CREDENTIAL_RESULT_BYTES,
                Label::CredentialResult,
            ),
            _ => wire::lemma_u8_carries_over(fields, more),
        }
    }
}

/// A field over its limit is refused from its length alone: no byte of the
/// payload has to arrive for that.
pub proof fn oversized_field_is_refused_without_its_payload(
    length: u32,
    rest: Seq<u8>,
    protocol: Protocol,
)
    requires
        length > protocol.chat_text_bytes,
    ensures
        parse_event(seq![8u8] + wire::u32_bytes(length) + rest, protocol) == Err::<
            (EventView, Seq<u8>),
            WireError,
        >(WireError::TooLong(Label::ChatText)),
        command::parse_command(seq![9u8] + wire::u32_bytes(length) + rest, protocol) == Err::<
            (command::CommandView, Seq<u8>),
            WireError,
        >(WireError::TooLong(Label::ChatText)),
{
    reveal(wire::parse_text);
    reveal(wire::parse_blob);
    wire::lemma_u32(length, rest);
    let fields = wire::u32_bytes(length) + rest;
    assert(seq![8u8] + wire::u32_bytes(length) + rest =~= seq![8u8] + fields);
    assert(seq![9u8] + wire::u32_bytes(length) + rest =~= seq![9u8] + fields);
    wire::lemma_u8(8, fields);
    wire::lemma_u8(9, fields);
}

/// Every event has its own first byte, and the bytes that follow are its fields, in
/// the order that they are read in; an event without fields is that byte alone.
pub proof fn events_have_their_numbers(
    text: Seq<char>,
    bytes: Seq<u8>,
    flag: bool,
    other: bool,
    display: DisplayId,
    frame: AccessUnitView,
    started: StartedView,
)
    ensures
        event_bytes(EventView::Stopped) == seq![4u8],
        event_bytes(EventView::InputStarted) == seq![6u8],
        event_bytes(EventView::Error(text)) == seq![3u8] + wire::text_bytes(text),
        event_bytes(EventView::Chat(text)) == seq![8u8] + wire::text_bytes(text),
        event_bytes(EventView::MaintenanceError(text)) == seq![11u8] + wire::text_bytes(text),
        event_bytes(EventView::Clipboard(bytes)) == seq![7u8] + wire::blob_bytes(bytes),
        event_bytes(EventView::Files(bytes)) == seq![9u8] + wire::blob_bytes(bytes),
        event_bytes(EventView::Credentials(bytes)) == seq![12u8] + wire::blob_bytes(bytes),
        event_bytes(EventView::CredentialPrompt(flag)) == seq![13u8, wire::flag_byte(flag)],
        event_bytes(EventView::MaintenanceState { agent_input_blocked: flag, blacked_out: other })
            == seq![10u8, wire::flag_byte(flag), wire::flag_byte(other)],
        event_bytes(
            EventView::Cursor {
                shape: bytes,
                viewer_controls_input: flag,
                pointer_display: Some(display),
            },
        ) == seq![5u8, wire::flag_byte(flag)] + wire::u32_bytes(display.0) + wire::blob_bytes(
            bytes,
        ),
        event_bytes(
            EventView::Cursor {
                shape: bytes,
                viewer_controls_input: flag,
                pointer_display: None,
            },
        ) == seq![5u8, wire::flag_byte(flag)] + wire::u32_bytes(0xffff_ffff) + wire::blob_bytes(
            bytes,
        ),
        ({
            let config = match frame.codec_config {
                Some(bytes) => bytes,
                None => seq![],
            };
            event_bytes(EventView::Frame(frame)) == seq![2u8] + wire::u64_bytes(
                frame.capture_timestamp_us,
            ) + wire::u64_bytes(frame.encode_complete_timestamp_us) + seq![
                wire::flag_byte(frame.keyframe),
            ] + wire::u32_bytes(config.len() as u32) + wire::u32_bytes(frame.data.len() as u32)
                + config + frame.data
        }),
        event_bytes(EventView::Started(started)) == seq![1u8] + wire::u32_bytes(
            started.format.width,
        ) + wire::u32_bytes(started.format.height) + wire::u32_bytes(
            started.format.frames_per_second,
        ) + wire::u32_bytes(started.format.bitrate_bits_per_second) + seq![
            wire::codec_code(started.format.codec),
            wire::pixel_format_code(started.format.pixel_format),
        ] + wire::u32_bytes(started.active_display.id.0) + display_frame::catalog_bytes(
            started.displays,
        ),
{
    assert(event_bytes(EventView::Stopped) =~= seq![4u8]);
    assert(event_bytes(EventView::InputStarted) =~= seq![6u8]);
    assert(event_bytes(EventView::CredentialPrompt(flag)) =~= seq![13u8, wire::flag_byte(flag)]);
    assert(event_bytes(
        EventView::MaintenanceState { agent_input_blocked: flag, blacked_out: other },
    ) =~= seq![10u8, wire::flag_byte(flag), wire::flag_byte(other)]);
    assert(event_bytes(
        EventView::Cursor {
            shape: bytes,
            viewer_controls_input: flag,
            pointer_display: Some(display),
        },
    ) =~= seq![5u8, wire::flag_byte(flag)] + wire::u32_bytes(display.0) + wire::blob_bytes(bytes));
    assert(event_bytes(
        EventView::Cursor { shape: bytes, viewer_controls_input: flag, pointer_display: None },
    ) =~= seq![5u8, wire::flag_byte(flag)] + wire::u32_bytes(0xffff_ffff) + wire::blob_bytes(
        bytes,
    ));
    lemma_frame_order(frame);
    lemma_started_order(started);
}

proof fn lemma_frame_order(frame: AccessUnitView)
    ensures
        ({
            let config = match frame.codec_config {
                Some(bytes) => bytes,
                None => seq![],
            };
            event_bytes(EventView::Frame(frame)) == seq![2u8] + wire::u64_bytes(
                frame.capture_timestamp_us,
            ) + wire::u64_bytes(frame.encode_complete_timestamp_us) + seq![
                wire::flag_byte(frame.keyframe),
            ] + wire::u32_bytes(config.len() as u32) + wire::u32_bytes(frame.data.len() as u32)
                + config + frame.data
        }),
{
    let config = match frame.codec_config {
        Some(bytes) => bytes,
        None => seq![],
    };
    let captured = wire::u64_bytes(frame.capture_timestamp_us);
    let encoded = wire::u64_bytes(frame.encode_complete_timestamp_us);
    let flag = seq![wire::flag_byte(frame.keyframe)];
    let config_length = wire::u32_bytes(config.len() as u32);
    let data_length = wire::u32_bytes(frame.data.len() as u32);
    assert(seq![2u8] + (captured + encoded + flag + config_length + data_length + config
        + frame.data) =~= seq![2u8] + captured + encoded + flag + config_length + data_length
        + config + frame.data);
}

proof fn lemma_started_order(started: StartedView)
    ensures
        event_bytes(EventView::Started(started)) == seq![1u8] + wire::u32_bytes(
            started.format.width,
        ) + wire::u32_bytes(started.format.height) + wire::u32_bytes(
            started.format.frames_per_second,
        ) + wire::u32_bytes(started.format.bitrate_bits_per_second) + seq![
            wire::codec_code(started.format.codec),
            wire::pixel_format_code(started.format.pixel_format),
        ] + wire::u32_bytes(started.active_display.id.0) + display_frame::catalog_bytes(
            started.displays,
        ),
{
    let width = wire::u32_bytes(started.format.width);
    let height = wire::u32_bytes(started.format.height);
    let frames = wire::u32_bytes(started.format.frames_per_second);
    let bits = wire::u32_bytes(started.format.bitrate_bits_per_second);
    let codes = seq![
        wire::codec_code(started.format.codec),
        wire::pixel_format_code(started.format.pixel_format),
    ];
    let active = wire::u32_bytes(started.active_display.id.0);
    let catalog = display_frame::catalog_bytes(started.displays);
    assert(seq![1u8] + ((width + height + frames + bits + codes + active) + catalog) =~= seq![1u8]
        + width + height + frames + bits + codes + active + catalog);
}

/// An event is written exactly when what it carries is no longer than it may be,
/// and a chat text valid; a refusal names what is too long.
pub proof fn events_are_refused_only_for_their_length(
    event: EventView,
    protocol: Protocol,
    chat_valid: bool,
)
    ensures
        ({
            let refused = event_refusal(event, protocol, chat_valid);
            &&& event matches EventView::Credentials(bytes) ==> refused == (if bytes.len() > 32_768 {
                Some(WireError::TooLong(Label::CredentialResult))
            } else {
                None
            })
            &&& event matches EventView::Files(bytes) ==> refused == (if bytes.len() > 65_536 {
                Some(WireError::TooLong(Label::FileTransfer))
            } else {
                None
            })
            &&& event matches EventView::MaintenanceError(text) ==> refused == (
            if utf8::encode_utf8(text).len() > 65_536 {
                Some(WireError::TooLong(Label::MaintenanceError))
            } else {
                None
            })
            &&& event matches EventView::Error(text) ==> refused == (if utf8::encode_utf8(
                text,
            ).len() > 65_536 {
                Some(WireError::TooLong(Label::DesktopHelperError))
            } else {
                None
            })
            &&& event matches EventView::Cursor { shape, .. } ==> refused == (if shape.len()
                > 65_536 {
                Some(WireError::TooLong(Label::CursorShape))
            } else {
                None
            })
            &&& event matches EventView::Clipboard(bytes) ==> refused == (if bytes.len()
                > protocol.clipboard_wire_bytes || bytes.len() > 0xffff_ffff {
                Some(WireError::TooLong(Label::ClipboardContent))
            } else {
                None
            })
            &&& event matches EventView::Chat(text) ==> refused == (if !chat_valid
                || utf8::encode_utf8(text).len() > protocol.chat_text_bytes || utf8::encode_utf8(
                text,
            ).len() > 0xffff_ffff {
                Some(WireError::InvalidChatText)
            } else {
                None
            })
            &&& event matches EventView::Frame(frame) ==> {
                let config = match frame.codec_config {
                    Some(bytes) => bytes.len(),
                    None => 0,
                };
                &&& refused == Some(WireError::TooLong(Label::CodecConfiguration)) <==> config
                    > 1_048_576
                &&& refused == Some(WireError::TooLong(Label::EncodedFrame)) <==> config
                    <= 1_048_576 && frame.data.len() > 33_554_432
                &&& refused is None <==> config <= 1_048_576 && frame.data.len() <= 33_554_432
            }
            &&& event matches EventView::Started(started) ==> (refused == Some(
                WireError::TooLong(Label::DisplayList),
            ) <==> started.displays.len() > 64)
            &&& refused is Some ==> !(event is InputStarted) && !(event is Stopped) && !(event
                is MaintenanceState) && !(event is CredentialPrompt)
        }),
{
}

/// What a payload holds matters only to the five events that have one, and each is
/// refused by its own name for what it is not; where the payload is what it should
/// be, nothing is refused.
pub proof fn payloads_have_to_be_what_they_are_called(event: EventView, verdict: PayloadVerdict)
    ensures
        ({
            let refused = payload_refusal(event, verdict);
            let wrong = verdict != PayloadVerdict::Expected;
            &&& refused is Some <==> wrong && (event is Cursor || event is Files || event
                is Clipboard || event is Credentials || event is Chat)
            &&& refused == Some(WireError::NotCursor) <==> event is Cursor && verdict
                == PayloadVerdict::Unexpected
            &&& refused == Some(WireError::Undecodable(Label::CursorShape)) <==> event is Cursor
                && verdict == PayloadVerdict::Undecodable
            &&& refused == Some(WireError::NotFileTransfer) <==> event is Files && verdict
                == PayloadVerdict::Unexpected
            &&& refused == Some(WireError::Undecodable(Label::FileTransfer)) <==> event is Files
                && verdict == PayloadVerdict::Undecodable
            &&& refused == Some(WireError::Undecodable(Label::ClipboardContent)) <==> event
                is Clipboard && wrong
            &&& refused == Some(WireError::Undecodable(Label::CredentialResult)) <==> event
                is Credentials && wrong
            &&& refused == Some(WireError::InvalidChatText) <==> event is Chat && wrong
        }),
{
}

/// The active display of a report is the first of those listed that has its id, and
/// a report without one is refused.
pub proof fn active_displays_are_listed(displays: Seq<DisplayView>, id: DisplayId)
    ensures
        find_display(displays, id) matches Some(display) ==> display.id == id && displays.contains(
            display,
        ),
        find_display(displays, id) is None <==> forall|i: int|
            0 <= i < displays.len() ==> (#[trigger] displays[i]).id != id,
    decreases displays.len(),
{
    if displays.len() > 0 {
        let rest = displays.skip(1);
        active_displays_are_listed(rest, id);
        assert forall|i: int| 0 <= i < rest.len() implies rest[i] == displays[i + 1] by {}
        if displays[0].id == id {
            assert(displays[0].id == id);
        } else {
            if let Some(display) = find_display(rest, id) {
                let at = choose|at: int| 0 <= at < rest.len() && rest[at] == display;
                assert(displays[at + 1] == display);
            } else {
                assert forall|i: int| 0 <= i < displays.len() implies (#[trigger] displays[i]).id
                    != id by {
                    if i > 0 {
                        assert(rest[i - 1].id != id);
                    }
                }
            }
        }
    }
}

/// A byte that begins no event is refused by its number, and nothing at all is an
/// early end.
pub proof fn unknown_events_are_refused(s: Seq<u8>, protocol: Protocol)
    ensures
        s.len() == 0 ==> parse_event(s, protocol) == Err::<(EventView, Seq<u8>), WireError>(
            WireError::UnexpectedEnd,
        ),
        s.len() > 0 && (s[0] == 0 || s[0] > 13) ==> parse_event(s, protocol) == Err::<
            (EventView, Seq<u8>),
            WireError,
        >(WireError::UnknownEvent(s[0])),
{
}

/// An event that is refused leaves nothing on the pipe that could be taken for a
/// whole one: of most nothing at all, of files the first byte, and of a start
/// report what comes before the list, or before the first name that does not fit.
pub proof fn refused_events_are_cut_short(event: EventView, protocol: Protocol, chat_valid: bool)
    requires
        event_refusal(event, protocol, chat_valid) is Some,
    ensures
        !(event is Files) && !(event is Started) ==> refused_bytes(event).len() == 0,
        event is Files ==> refused_bytes(event) == seq![9u8],
        event matches EventView::Started(started) ==> started.displays.len() > 64 ==> refused_bytes(
            event,
        ) == seq![1u8] + started_head(started),
        event matches EventView::Started(started) ==> started.displays.len() <= 64
            ==> refused_bytes(event) == seq![1u8] + started_head(started) + (wire::u32_bytes(
            started.displays.len() as u32,
        ) + display_frame::displays_bytes(
            started.displays.take(display_frame::leading_fit(started.displays) as int),
        )) && display_frame::leading_fit(started.displays) < started.displays.len(),
        event is Started ==> (event_refusal(event, protocol, chat_valid) == Some(
            WireError::TooLong(Label::DisplayName),
        ) <==> event->Started_0.displays.len() <= 64),
{
}

} // verus!
