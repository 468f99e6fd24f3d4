//! How displays are framed, alone and in lists.
use crate::model;
use crate::model::{DesktopSession, Display, DisplayId, DisplayView, Protocol, SessionView};
use crate::wire;
use crate::wire::{
    bounded_len, checked_len, read_text, read_u32, read_u8, write_flag, write_text, write_u32,
    Label, PipeReader, WireError, MAX_DISPLAYS, MAX_DISPLAY_NAME_BYTES,
};
use vstd::prelude::*;
use vstd::utf8;

verus! {

/// A coordinate as an unsigned integer: negative ones wrap around.
pub open spec fn coordinate_code(value: i32) -> u32 {
    if value >= 0 {
        value as u32
    } else {
        (value + 4294967296) as u32
    }
}

pub open spec fn coordinate_of(code: u32) -> i32 {
    if code <= i32::MAX {
        code as i32
    } else {
        (code - 4294967296) as i32
    }
}

fn coordinate_to_u32(value: i32) -> (code: u32)
    ensures
        code == coordinate_code(value),
{
    if value >= 0 {
        value as u32
    } else {
        (value as i64 + 4294967296) as u32
    }
}

fn coordinate_from_u32(code: u32) -> (value: i32)
    ensures
        value == coordinate_of(code),
{
    if code <= 0x7fff_ffff {
        code as i32
    } else {
        (code as i64 - 4294967296) as i32
    }
}

/// The fields of a display before its name.
pub open spec fn display_head(display: DisplayView) -> Seq<u8> {
    wire::u32_bytes(display.id.0) + wire::u32_bytes(coordinate_code(display.x)) + wire::u32_bytes(
        coordinate_code(display.y),
    ) + wire::u32_bytes(display.width) + wire::u32_bytes(display.height) + seq![
        wire::flag_byte(display.primary),
    ]
}

/// A display's frame; the session it belongs to is not part of it.
pub open spec fn display_bytes(display: DisplayView) -> Seq<u8> {
    display_head(display) + wire::text_bytes(display.name)
}

pub open spec fn name_fits(display: DisplayView) -> bool {
    utf8::encode_utf8(display.name).len() <= MAX_DISPLAY_NAME_BYTES
}

/// The session that a reader gives a display: only the background desktop is
/// told apart.
pub open spec fn framed_session(id: DisplayId, protocol: Protocol) -> SessionView {
    if id == protocol.background_display {
        SessionView::Background
    } else {
        SessionView::Console
    }
}

pub open spec fn parse_display(s: Seq<u8>, protocol: Protocol) -> wire::Parsed<DisplayView> {
    match wire::parse_u32(s) {
        Err(error) => Err(error),
        Ok((id, s)) => match wire::parse_u32(s) {
            Err(error) => Err(error),
            Ok((x, s)) => match wire::parse_u32(s) {
                Err(error) => Err(error),
                Ok((y, s)) => parse_sized(s, DisplayId(id), x, y, protocol),
            },
        },
    }
}

/// What follows a display's id and position.
pub open spec fn parse_sized(
    s: Seq<u8>,
    id: DisplayId,
    x: u32,
    y: u32,
    protocol: Protocol,
) -> wire::Parsed<DisplayView> {
    match wire::parse_u32(s) {
        Err(error) => Err(error),
        Ok((width, s)) => match wire::parse_u32(s) {
            Err(error) => Err(error),
            Ok((height, s)) => match wire::parse_flag(
                s,
                |value: u8| WireError::InvalidPrimaryFlag(value),
            ) {
                Err(error) => Err(error),
                Ok((primary, s)) => match wire::parse_text(
                    s,
                    MAX_DISPLAY_NAME_BYTES,
                    Label::DisplayName,
                ) {
                    Err(error) => Err(error),
                    Ok((name, s)) => Ok(
                        (
                            DisplayView {
                                session: framed_session(id, protocol),
                                id,
                                name,
                                x: coordinate_of(x),
                                y: coordinate_of(y),
                                width,
                                height,
                                primary,
                            },
                            s,
                        ),
                    ),
                },
            },
        },
    }
}

/// Appends a display's frame, or nothing if its name is too long.
pub fn write_display(out: &mut Vec<u8>, display: &Display) -> (result: Result<(), WireError>)
    ensures
        if name_fits(display@) {
            result is Ok && final(out)@ == old(out)@ + display_bytes(display@)
        } else {
            result == Err::<(), WireError>(WireError::TooLong(Label::DisplayName))
                && final(out)@ == old(out)@
        },
{
    checked_len(display.name.as_str().as_bytes().len(), MAX_DISPLAY_NAME_BYTES, Label::DisplayName)?;
    write_u32(out, display.id.0);
    write_u32(out, coordinate_to_u32(display.x));
    write_u32(out, coordinate_to_u32(display.y));
    write_u32(out, display.width);
    write_u32(out, display.height);
    write_flag(out, display.primary);
    write_text(out, &display.name);
    assert(out@ =~= old(out)@ + display_bytes(display@));
    Ok(())
}

pub fn read_display(reader: &mut PipeReader, protocol: &Protocol) -> (result: Result<
    Display,
    WireError,
>)
    ensures
        wire::reads_view(
            final(reader).rest(),
            result,
            parse_display(old(reader).rest(), *protocol),
        ),
{
    let id = DisplayId(read_u32(reader)?);
    let x = coordinate_from_u32(read_u32(reader)?);
    let y = coordinate_from_u32(read_u32(reader)?);
    let width = read_u32(reader)?;
    let height = read_u32(reader)?;
    let primary = match read_u8(reader)? {
        0 => false,
        1 => true,
        value => {
            return Err(WireError::InvalidPrimaryFlag(value));
        },
    };
    let name = read_text(reader, MAX_DISPLAY_NAME_BYTES, Label::DisplayName)?;
    let session = if id == protocol.background_display {
        DesktopSession::Background
    } else {
        DesktopSession::Console
    };
    Ok(Display { session, id, name, x, y, width, height, primary })
}

/// The frames of a list of displays, one after the other.
pub open spec fn displays_bytes(displays: Seq<DisplayView>) -> Seq<u8>
    decreases displays.len(),
{
    if displays.len() == 0 {
        seq![]
    } else {
        displays_bytes(displays.drop_last()) + display_bytes(displays.last())
    }
}

/// How many displays at the head of a list have names that fit.
pub open spec fn leading_fit(displays: Seq<DisplayView>) -> nat
    decreases displays.len(),
{
    if displays.len() == 0 {
        0
    } else if leading_fit(displays.drop_last()) == displays.len() - 1 && name_fits(
        displays.last(),
    ) {
        displays.len()
    } else {
        leading_fit(displays.drop_last())
    }
}

proof fn lemma_leading_fit_prefix(displays: Seq<DisplayView>, stop: int)
    requires
        0 <= stop < displays.len(),
        leading_fit(displays.take(stop)) == stop,
        !name_fits(displays[stop]),
    ensures
        leading_fit(displays) == stop,
    decreases displays.len(),
{
    if stop == displays.len() - 1 {
        assert(displays.drop_last() =~= displays.take(stop));
    } else {
        assert(displays.drop_last().take(stop) =~= displays.take(stop));
        lemma_leading_fit_prefix(displays.drop_last(), stop);
    }
}

/// Appends the frames of the displays, up to the first whose name is too long.
pub fn write_displays(out: &mut Vec<u8>, displays: &Vec<Display>) -> (result: Result<(), WireError>)
    ensures
        ({
            let views = model::display_views(displays@);
            let fit = leading_fit(views) as int;
            &&& 0 <= fit <= views.len()
            &&& final(out)@ == old(out)@ + displays_bytes(views.take(fit))
            &&& result == (if fit == views.len() {
                Ok::<(), WireError>(())
            } else {
                Err::<(), WireError>(WireError::TooLong(Label::DisplayName))
            })
        }),
{
    let ghost views = model::display_views(displays@);
    let mut next: usize = 0;
    assert(old(out)@ + displays_bytes(views.take(0)) =~= old(out)@);
    while next < displays.len()
        invariant
            next <= displays.len(),
            views == model::display_views(displays@),
            leading_fit(views.take(next as int)) == next,
            out@ == old(out)@ + displays_bytes(views.take(next as int)),
        decreases displays.len() - next,
    {
        let ghost written = out@;
        let result = write_display(out, &displays[next]);
        assert(views[next as int] == displays[next as int]@);
        if result.is_err() {
            proof {
                lemma_leading_fit_prefix(views, next as int);
            }
            return result;
        }
        assert(views.take(next + 1).drop_last() =~= views.take(next as int));
        assert(written + display_bytes(views[next as int]) =~= old(out)@ + displays_bytes(
            views.take(next + 1),
        ));
        next += 1;
    }
    assert(views.take(views.len() as int) =~= views);
    Ok(())
}

/// Reads `count` displays from the head of a byte sequence.
pub open spec fn parse_displays(s: Seq<u8>, count: nat, protocol: Protocol) -> wire::Parsed<
    Seq<DisplayView>,
>
    decreases count,
{
    if count == 0 {
        Ok((seq![], s))
    } else {
        match parse_displays(s, (count - 1) as nat, protocol) {
            Err(error) => Err(error),
            Ok((displays, s)) => match parse_display(s, protocol) {
                Err(error) => Err(error),
                Ok((display, s)) => Ok((displays.push(display), s)),
            },
        }
    }
}

proof fn lemma_error_stays(s: Seq<u8>, failed: nat, count: nat, protocol: Protocol)
    requires
        failed <= count,
        parse_displays(s, failed, protocol) is Err,
    ensures
        parse_displays(s, count, protocol) == parse_displays(s, failed, protocol),
    decreases count,
{
    if failed < count {
        lemma_error_stays(s, failed, (count - 1) as nat, protocol);
    }
}

pub fn read_displays(reader: &mut PipeReader, count: usize, protocol: &Protocol) -> (result: Result<
    Vec<Display>,
    WireError,
>)
    ensures
        match parse_displays(old(reader).rest(), count as nat, *protocol) {
            Ok((views, rest)) => result is Ok && model::display_views(result->Ok_0@) == views
                && final(reader).rest() == rest,
            Err(error) => result == Err::<Vec<Display>, WireError>(error),
        },
{
    let mut displays: Vec<Display> = Vec::new();
    let mut next: usize = 0;
    assert(model::display_views(displays@) =~= seq![]);
    while next < count
        invariant
            next <= count,
            parse_displays(old(reader).rest(), next as nat, *protocol) == Ok::<
                (Seq<DisplayView>, Seq<u8>),
                WireError,
            >((model::display_views(displays@), reader.rest())),
        decreases count - next,
    {
        let ghost before = displays@;
        let ghost rest = reader.rest();
        let result = read_display(reader, protocol);
        match result {
            Ok(display) => {
                displays.push(display);
                assert(model::display_views(displays@) =~= model::display_views(before).push(
                    display@,
                ));
            },
            Err(error) => {
                proof {
                    assert(parse_displays(old(reader).rest(), (next + 1) as nat, *protocol) is Err);
                    lemma_error_stays(
                        old(reader).rest(),
                        (next + 1) as nat,
                        count as nat,
                        *protocol,
                    );
                }
                return Err(error);
            },
        }
        next += 1;
    }
    Ok(displays)
}

/// The reply to a request for the monitors: how many, then each.
pub open spec fn catalog_bytes(displays: Seq<DisplayView>) -> Seq<u8> {
    wire::u32_bytes(displays.len() as u32) + displays_bytes(displays)
}

pub open spec fn parse_catalog(s: Seq<u8>, label: Label, protocol: Protocol) -> wire::Parsed<
    Seq<DisplayView>,
> {
    match wire::parse_length(s, MAX_DISPLAYS, label) {
        Err(error) => Err(error),
        Ok((count, s)) => parse_displays(s, count as nat, protocol),
    }
}

/// Appends the reply to a request for the monitors.
pub fn write_catalog(out: &mut Vec<u8>, displays: &Vec<Display>) -> (result: Result<(), WireError>)
    ensures
        ({
            let views = model::display_views(displays@);
            let fit = leading_fit(views) as int;
            if views.len() > MAX_DISPLAYS {
                result == Err::<(), WireError>(WireError::TooLong(Label::DisplayCount))
                    && final(out)@ == old(out)@
            } else {
                &&& final(out)@ == old(out)@ + (wire::u32_bytes(views.len() as u32)
                    + displays_bytes(views.take(fit)))
                &&& result == (if fit == views.len() {
                    Ok::<(), WireError>(())
                } else {
                    Err::<(), WireError>(WireError::TooLong(Label::DisplayName))
                })
            }
        }),
{
    checked_len(displays.len(), MAX_DISPLAYS, Label::DisplayCount)?;
    write_u32(out, displays.len() as u32);
    let result = write_displays(out, displays);
    proof {
        let views = model::display_views(displays@);
        let fit = leading_fit(views) as int;
        assert(out@ =~= old(out)@ + (wire::u32_bytes(views.len() as u32) + displays_bytes(
            views.take(fit),
        )));
    }
    result
}

/// Reads a count and that many displays.
pub fn read_catalog(reader: &mut PipeReader, label: Label, protocol: &Protocol) -> (result: Result<
    Vec<Display>,
    WireError,
>)
    ensures
        match parse_catalog(old(reader).rest(), label, *protocol) {
            Ok((views, rest)) => result is Ok && model::display_views(result->Ok_0@) == views
                && final(reader).rest() == rest,
            Err(error) => result == Err::<Vec<Display>, WireError>(error),
        },
{
    let count = bounded_len(read_u32(reader)?, MAX_DISPLAYS, label)?;
    read_displays(reader, count, protocol)
}

/// Whether a reader gives back this display: its name fits and its session is
/// the one that frames imply.
pub open spec fn display_readable(display: DisplayView, protocol: Protocol) -> bool {
    name_fits(display) && display.session == framed_session(display.id, protocol)
}

pub open spec fn displays_readable(displays: Seq<DisplayView>, protocol: Protocol) -> bool {
    forall|i: int| 0 <= i < displays.len() ==> display_readable(#[trigger] displays[i], protocol)
}

/// A display that was written is read back unchanged, and the reader then
/// stands exactly after it.
pub proof fn display_round_trip(display: DisplayView, rest: Seq<u8>, protocol: Protocol)
    requires
        display_readable(display, protocol),
    ensures
        parse_display(display_bytes(display) + rest, protocol) == Ok::<
            (DisplayView, Seq<u8>),
            WireError,
        >((display, rest)),
{
    let id_bytes = wire::u32_bytes(display.id.0);
    let x_bytes = wire::u32_bytes(coordinate_code(display.x));
    let y_bytes = wire::u32_bytes(coordinate_code(display.y));
    let width_bytes = wire::u32_bytes(display.width);
    let height_bytes = wire::u32_bytes(display.height);
    let primary_bytes = seq![wire::flag_byte(display.primary)];
    let name_bytes = wire::text_bytes(display.name);
    let name = name_bytes + rest;
    let primary = primary_bytes + name;
    let height = height_bytes + primary;
    let width = width_bytes + height;
    let y = y_bytes + width;
    let x = x_bytes + y;
    wire::lemma_seven_fields(
        id_bytes,
        x_bytes,
        y_bytes,
        width_bytes,
        height_bytes,
        primary_bytes,
        name_bytes,
        rest,
    );
    wire::lemma_u32(display.id.0, x);
    wire::lemma_u32(coordinate_code(display.x), y);
    wire::lemma_u32(coordinate_code(display.y), width);
    wire::lemma_u32(display.width, height);
    wire::lemma_u32(display.height, primary);
    wire::lemma_u8(wire::flag_byte(display.primary), name);
    wire::lemma_text(display.name, rest, MAX_DISPLAY_NAME_BYTES, Label::DisplayName);
}

proof fn lemma_display_canonical(s: Seq<u8>, protocol: Protocol)
    requires
        parse_display(s, protocol) is Ok,
    ensures
        ({
            let (display, rest) = parse_display(s, protocol)->Ok_0;
            s == display_bytes(display) + rest && display_readable(display, protocol)
        }),
{
    let (display, rest) = parse_display(s, protocol)->Ok_0;
    wire::lemma_u32_canonical(s);
    let s1 = s.skip(4);
    wire::lemma_u32_canonical(s1);
    let s2 = s1.skip(4);
    wire::lemma_u32_canonical(s2);
    let s3 = s2.skip(4);
    wire::lemma_u32_canonical(s3);
    let s4 = s3.skip(4);
    wire::lemma_u32_canonical(s4);
    let s5 = s4.skip(4);
    wire::lemma_u8_canonical(s5);
    let s6 = s5.skip(1);
    wire::lemma_text_canonical(s6, MAX_DISPLAY_NAME_BYTES, Label::DisplayName);
    wire::lemma_seven_fields(
        wire::u32_bytes(display.id.0),
        wire::u32_bytes(coordinate_code(display.x)),
        wire::u32_bytes(coordinate_code(display.y)),
        wire::u32_bytes(display.width),
        wire::u32_bytes(display.height),
        seq![wire::flag_byte(display.primary)],
        wire::text_bytes(display.name),
        rest,
    );
}

proof fn lemma_sized_carries_over(
    s: Seq<u8>,
    more: Seq<u8>,
    id: DisplayId,
    x: u32,
    y: u32,
    protocol: Protocol,
)
    ensures
        wire::carries_over(
            parse_sized(s, id, x, y, protocol),
            parse_sized(s + more, id, x, y, protocol),
            more,
        ),
{
    wire::lemma_u32_carries_over(s, more);
    if s.len() >= 4 {
        let s1 = s.skip(4);
        wire::lemma_u32_carries_over(s1, more);
        if s1.len() >= 4 {
            let s2 = s1.skip(4);
            wire::lemma_u8_carries_over(s2, more);
            if s2.len() >= 1 {
                wire::lemma_text_carries_over(
                    s2.skip(1),
                    more,
                    MAX_DISPLAY_NAME_BYTES,
                    Label::DisplayName,
                );
            }
        }
    }
}

proof fn lemma_display_carries_over(s: Seq<u8>, more: Seq<u8>, protocol: Protocol)
    ensures
        wire::carries_over(parse_display(s, protocol), parse_display(s + more, protocol), more),
{
    wire::lemma_u32_carries_over(s, more);
    if s.len() >= 4 {
        let s1 = s.skip(4);
        wire::lemma_u32_carries_over(s1, more);
        if s1.len() >= 4 {
            let s2 = s1.skip(4);
            wire::lemma_u32_carries_over(s2, more);
            if s2.len() >= 4 {
                lemma_sized_carries_over(
                    s2.skip(4),
                    more,
                    DisplayId(wire::u32_of(s)),
                    wire::u32_of(s1),
                    wire::u32_of(s2),
                    protocol,
                );
            }
        }
    }
}

/// A list of displays that was written is read back unchanged.
pub proof fn displays_round_trip(displays: Seq<DisplayView>, rest: Seq<u8>, protocol: Protocol)
    requires
        displays_readable(displays, protocol),
    ensures
        leading_fit(displays) == displays.len(),
        parse_displays(displays_bytes(displays) + rest, displays.len(), protocol) == Ok::<
            (Seq<DisplayView>, Seq<u8>),
            WireError,
        >((displays, rest)),
    decreases displays.len(),
{
    if displays.len() == 0 {
        assert(displays =~= seq![]);
        assert(displays_bytes(displays) + rest =~= rest);
    } else {
        let last = displays.last();
        let after = display_bytes(last) + rest;
        assert(displays_bytes(displays) + rest =~= displays_bytes(displays.drop_last()) + after);
        assert(display_readable(displays[displays.len() - 1], protocol));
        displays_round_trip(displays.drop_last(), after, protocol);
        display_round_trip(last, rest, protocol);
        assert(displays.drop_last().push(last) =~= displays);
    }
}

pub proof fn lemma_displays_canonical(s: Seq<u8>, count: nat, protocol: Protocol)
    requires
        parse_displays(s, count, protocol) is Ok,
    ensures
        ({
            let (displays, rest) = parse_displays(s, count, protocol)->Ok_0;
            &&& displays.len() == count
            &&& displays_readable(displays, protocol)
            &&& s == displays_bytes(displays) + rest
        }),
    decreases count,
{
    let (displays, rest) = parse_displays(s, count, protocol)->Ok_0;
    if count == 0 {
        assert(s =~= displays_bytes(displays) + rest);
    } else {
        lemma_displays_canonical(s, (count - 1) as nat, protocol);
        let (before, s1) = parse_displays(s, (count - 1) as nat, protocol)->Ok_0;
        lemma_display_canonical(s1, protocol);
        assert(displays.drop_last() =~= before);
        assert(s =~= displays_bytes(displays) + rest);
    }
}

/// Whatever a reader accepts as a list is the frame of the displays it returns,
/// and each of them fits its frame.
pub proof fn lemma_catalog_canonical(s: Seq<u8>, label: Label, protocol: Protocol)
    requires
        parse_catalog(s, label, protocol) is Ok,
    ensures
        ({
            let (displays, rest) = parse_catalog(s, label, protocol)->Ok_0;
            &&& displays.len() <= MAX_DISPLAYS
            &&& displays_readable(displays, protocol)
            &&& leading_fit(displays) == displays.len()
            &&& s == catalog_bytes(displays) + rest
        }),
{
    let (displays, rest) = parse_catalog(s, label, protocol)->Ok_0;
    wire::lemma_u32_canonical(s);
    lemma_displays_canonical(s.skip(4), wire::u32_of(s) as nat, protocol);
    displays_round_trip(displays, rest, protocol);
    wire::lemma_concat(wire::u32_bytes(wire::u32_of(s)), displays_bytes(displays), rest);
}

pub proof fn lemma_displays_carry_over(s: Seq<u8>, more: Seq<u8>, count: nat, protocol: Protocol)
    ensures
        wire::carries_over(
            parse_displays(s, count, protocol),
            parse_displays(s + more, count, protocol),
            more,
        ),
    decreases count,
{
    if count > 0 {
        lemma_displays_carry_over(s, more, (count - 1) as nat, protocol);
        if let Ok((before, s1)) = parse_displays(s, (count - 1) as nat, protocol) {
            lemma_display_carries_over(s1, more, protocol);
        }
    }
}

/// A display as its reader gives it, in the session that its id implies.
pub open spec fn framed(display: DisplayView, protocol: Protocol) -> DisplayView {
    DisplayView { session: framed_session(display.id, protocol), ..display }
}

pub open spec fn framed_displays(displays: Seq<DisplayView>, protocol: Protocol) -> Seq<
    DisplayView,
> {
    displays.map_values(|display: DisplayView| framed(display, protocol))
}

/// The frames of displays do not depend on their sessions.
pub proof fn lemma_framed(displays: Seq<DisplayView>, protocol: Protocol)
    ensures
        displays_bytes(framed_displays(displays, protocol)) == displays_bytes(displays),
        leading_fit(framed_displays(displays, protocol)) == leading_fit(displays),
        leading_fit(displays) <= displays.len(),
        leading_fit(displays) == displays.len() ==> displays_readable(
            framed_displays(displays, protocol),
            protocol,
        ),
    decreases displays.len(),
{
    let read = framed_displays(displays, protocol);
    if displays.len() > 0 {
        lemma_framed(displays.drop_last(), protocol);
        assert(read.drop_last() =~= framed_displays(displays.drop_last(), protocol));
        assert(display_bytes(read.last()) == display_bytes(displays.last()));
        if leading_fit(displays) == displays.len() {
            assert forall|i: int| 0 <= i < read.len() implies display_readable(
                #[trigger] read[i],
                protocol,
            ) by {
                if i < read.len() - 1 {
                    assert(read[i] == read.drop_last()[i]);
                }
            }
        }
    }
}

/// The monitors in a reply are read back unchanged, with what follows them.
pub proof fn catalog_round_trip(
    displays: Seq<DisplayView>,
    rest: Seq<u8>,
    label: Label,
    protocol: Protocol,
)
    requires
        displays.len() <= MAX_DISPLAYS,
        displays_readable(displays, protocol),
    ensures
        parse_catalog(catalog_bytes(displays) + rest, label, protocol) == Ok::<
            (Seq<DisplayView>, Seq<u8>),
            WireError,
        >((displays, rest)),
{
    let after = displays_bytes(displays) + rest;
    assert(catalog_bytes(displays) + rest =~= wire::u32_bytes(displays.len() as u32) + after);
    wire::lemma_u32(displays.len() as u32, after);
    displays_round_trip(displays, rest, protocol);
}

/// A display is written as its id, its place, its size, whether it is the primary
/// one, and its name; a place to the left of the origin, or above it, wraps around.
pub proof fn displays_are_written_in_order(display: DisplayView, x: i32)
    ensures
        display_bytes(display) == wire::u32_bytes(display.id.0) + wire::u32_bytes(
            coordinate_code(display.x),
        ) + wire::u32_bytes(coordinate_code(display.y)) + wire::u32_bytes(display.width)
            + wire::u32_bytes(display.height) + seq![wire::flag_byte(display.primary)]
            + wire::text_bytes(display.name),
        coordinate_code(x) == (if x < 0 {
            x + 0x1_0000_0000
        } else {
            x as int
        }),
        coordinate_of(coordinate_code(x)) == x,
        name_fits(display) <==> utf8::encode_utf8(display.name).len() <= 4_096,
{
}

/// Only the display that stands for the background is read as the background's, and
/// every other as the console's.
pub proof fn only_the_background_is_told_apart(id: DisplayId, protocol: Protocol)
    ensures
        framed_session(id, protocol) is Background <==> id == protocol.background_display,
        framed_session(id, protocol) is Console <==> id != protocol.background_display,
{
}

/// A list is written as how many there are, and each of them behind the one before.
pub proof fn lists_begin_with_their_length(displays: Seq<DisplayView>, last: DisplayView)
    ensures
        catalog_bytes(displays) == wire::u32_bytes(displays.len() as u32) + displays_bytes(
            displays,
        ),
        displays_bytes(seq![]) == Seq::<u8>::empty(),
        displays_bytes(displays.push(last)) == displays_bytes(displays) + display_bytes(last),
{
    assert(displays.push(last).drop_last() =~= displays);
}

/// A list is written up to its first display whose name does not fit.
pub proof fn lists_stop_at_a_name_that_does_not_fit(displays: Seq<DisplayView>)
    ensures
        leading_fit(displays) <= displays.len(),
        forall|i: int|
            0 <= i < leading_fit(displays) ==> name_fits(#[trigger] displays[i]),
        leading_fit(displays) < displays.len() ==> !name_fits(
            displays[leading_fit(displays) as int],
        ),
    decreases displays.len(),
{
    if displays.len() > 0 {
        let shorter = displays.drop_last();
        lists_stop_at_a_name_that_does_not_fit(shorter);
        assert forall|i: int| 0 <= i < leading_fit(displays) implies name_fits(
            #[trigger] displays[i],
        ) by {
            if i < shorter.len() {
                assert(shorter[i] == displays[i]);
            }
        }
        if leading_fit(shorter) < shorter.len() {
            assert(shorter[leading_fit(shorter) as int] == displays[leading_fit(shorter) as int]);
        }
    }
}

} // verus!
