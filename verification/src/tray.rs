//! Tray icons: one process for each signed-in session, run as its user.
use crate::service::{LEGACY_SERVICE_NAME, SERVICE_NAME};
use crate::text;
use crate::text::{parse_u32, push_decimal, push_str, same_text};
use vstd::prelude::*;

verus! {

/// A session that Windows lists.
#[derive(Debug, Clone, Copy, PartialEq, Eq, Structural)]
pub struct ListedSession {
    pub id: u32,
    pub active: bool,
}

/// The sessions that get a tray: the active ones but for that of services.
pub open spec fn tray_sessions(listed: Seq<ListedSession>) -> Seq<u32>
    decreases listed.len(),
{
    if listed.len() == 0 {
        seq![]
    } else if listed.last().active && listed.last().id != 0 {
        tray_sessions(listed.drop_last()).push(listed.last().id)
    } else {
        tray_sessions(listed.drop_last())
    }
}

pub fn active_sessions(listed: &Vec<ListedSession>) -> (ids: Vec<u32>)
    ensures
        ids@ == tray_sessions(listed@),
{
    let mut ids: Vec<u32> = Vec::new();
    let mut next: usize = 0;
    while next < listed.len()
        invariant
            next <= listed@.len(),
            ids@ == tray_sessions(listed@.take(next as int)),
        decreases listed@.len() - next,
    {
        proof {
            assert(listed@.take(next + 1).drop_last() =~= listed@.take(next as int));
        }
        if listed[next].active && listed[next].id != 0 {
            ids.push(listed[next].id);
        }
        next += 1;
    }
    assert(listed@.take(next as int) =~= listed@);
    ids
}

/// A tray process.
#[derive(Debug, Clone, Copy, PartialEq, Eq, Structural)]
pub struct Tray {
    pub session: u32,
    pub running: bool,
}

/// Whether a tray stays: its session is there, and it runs.
pub open spec fn stays(tray: Tray, sessions: Seq<u32>) -> bool {
    tray.running && sessions.contains(tray.session)
}

/// The trays that stay.
pub open spec fn retained(trays: Seq<Tray>, sessions: Seq<u32>) -> Seq<Tray>
    decreases trays.len(),
{
    if trays.len() == 0 {
        seq![]
    } else if stays(trays.last(), sessions) {
        retained(trays.drop_last(), sessions).push(trays.last())
    } else {
        retained(trays.drop_last(), sessions)
    }
}

fn contains(ids: &Vec<u32>, id: u32) -> (found: bool)
    ensures
        found == ids@.contains(id),
{
    let mut next: usize = 0;
    while next < ids.len()
        invariant
            next <= ids@.len(),
            forall|i: int| 0 <= i < next ==> ids@[i] != id,
        decreases ids@.len() - next,
    {
        if ids[next] == id {
            assert(ids@[next as int] == id);
            return true;
        }
        next += 1;
    }
    false
}

/// The trays that run.
#[derive(Debug)]
pub struct Trays {
    pub running: Vec<Tray>,
}

impl Trays {
    pub open spec fn has(self, session: u32) -> bool {
        exists|i: int| 0 <= i < self.running@.len() && (#[trigger] self.running@[i]).session
            == session
    }

    pub open spec fn wf(self) -> bool {
        forall|i: int, j: int|
            0 <= i < j < self.running@.len() ==> (#[trigger] self.running@[i]).session != (
            #[trigger] self.running@[j]).session
    }

    pub fn new() -> (trays: Self)
        ensures
            trays.running@ == Seq::<Tray>::empty(),
            trays.wf(),
    {
        Trays { running: Vec::new() }
    }

    /// Drops the trays of sessions that are gone, and those that have ended.
    pub fn retain(&mut self, sessions: &Vec<u32>)
        requires
            old(self).wf(),
        ensures
            final(self).running@ == retained(old(self).running@, sessions@),
            final(self).wf(),
    {
        let mut kept: Vec<Tray> = Vec::new();
        let mut next: usize = 0;
        while next < self.running.len()
            invariant
                next <= self.running@.len(),
                self.running@ == old(self).running@,
                kept@ == retained(self.running@.take(next as int), sessions@),
            decreases self.running@.len() - next,
        {
            let tray = self.running[next];
            proof {
                assert(self.running@.take(next + 1).drop_last() =~= self.running@.take(
                    next as int,
                ));
            }
            if tray.running && contains(sessions, tray.session) {
                kept.push(tray);
            }
            next += 1;
        }
        assert(self.running@.take(next as int) =~= self.running@);
        proof {
            lemma_retained(self.running@, sessions@);
        }
        self.running = kept;
    }

    /// Whether a session still needs a tray.
    pub fn lacks(&self, session: u32) -> (lacks: bool)
        ensures
            lacks == !self.has(session),
    {
        let mut next: usize = 0;
        while next < self.running.len()
            invariant
                next <= self.running@.len(),
                forall|i: int| 0 <= i < next ==> (#[trigger] self.running@[i]).session != session,
            decreases self.running@.len() - next,
        {
            if self.running[next].session == session {
                assert(self.running@[next as int].session == session);
                return false;
            }
            next += 1;
        }
        true
    }

    /// Records a tray that was started.
    pub fn started(&mut self, session: u32)
        requires
            old(self).wf(),
            !old(self).has(session),
        ensures
            final(self).running@ == old(self).running@.push(Tray { session, running: true }),
            final(self).wf(),
    {
        self.running.push(Tray { session, running: true });
    }
}

/// Every retained tray is one of those before it, at the same distance or
/// further.
proof fn lemma_retained(trays: Seq<Tray>, sessions: Seq<u32>)
    requires
        forall|i: int, j: int|
            0 <= i < j < trays.len() ==> (#[trigger] trays[i]).session != (
            #[trigger] trays[j]).session,
    ensures
        forall|i: int, j: int|
            0 <= i < j < retained(trays, sessions).len() ==> (#[trigger] retained(
                trays,
                sessions,
            )[i]).session != (#[trigger] retained(trays, sessions)[j]).session,
        forall|i: int|
            0 <= i < retained(trays, sessions).len() ==> trays.contains(
                #[trigger] retained(trays, sessions)[i],
            ),
    decreases trays.len(),
{
    if trays.len() > 0 {
        let shorter = trays.drop_last();
        let kept = retained(shorter, sessions);
        lemma_retained(shorter, sessions);
        let all = retained(trays, sessions);
        assert forall|i: int| 0 <= i < all.len() implies trays.contains(#[trigger] all[i]) by {
            if i < kept.len() {
                assert(kept[i] == all[i]);
                let at = choose|at: int| 0 <= at < shorter.len() && shorter[at] == kept[i];
                assert(trays[at] == all[i]);
            } else {
                assert(trays[trays.len() - 1] == all[i]);
            }
        }
        assert forall|i: int, j: int| 0 <= i < j < all.len() implies (#[trigger] all[i]).session
            != (#[trigger] all[j]).session by {
            assert(all[i] == kept[i]);
            if j < kept.len() {
                assert(all[j] == kept[j]);
            } else {
                let at = choose|at: int| 0 <= at < shorter.len() && shorter[at] == kept[i];
                assert(trays[at] == all[i]);
                assert(trays[trays.len() - 1] == all[j]);
            }
        }
    }
}

pub open spec fn command_of(executable: Seq<char>, service: Seq<char>, process_id: u32) -> Seq<
    char,
> {
    "\""@ + executable + "\" --tray "@ + service + " "@ + text::decimal(process_id as nat)
}

/// The command line of a tray process.
pub fn tray_command(executable: &str, service: &str, process_id: u32) -> (command: String)
    ensures
        command@ == command_of(executable@, service@, process_id),
{
    let mut command = "\"".to_owned();
    push_str(&mut command, executable);
    push_str(&mut command, "\" --tray ");
    push_str(&mut command, service);
    push_str(&mut command, " ");
    push_decimal(&mut command, process_id as u64);
    command
}

#[derive(Debug, Clone, Copy, PartialEq, Eq, Structural)]
pub enum TrayError {
    MissingService,
    InvalidService,
    MissingProcess,
    InvalidProcess,
}

impl TrayError {
    /// What is said of it, unless whatever reads the number words it.
    pub fn message(&self) -> (text: Option<&'static str>)
        ensures
            match *self {
                TrayError::MissingService => text is Some && text->Some_0@
                    == "missing service name"@,
                TrayError::InvalidService => text is Some && text->Some_0@
                    == "invalid service name"@,
                TrayError::MissingProcess => text is Some && text->Some_0@
                    == "missing service PID"@,
                TrayError::InvalidProcess => text is None,
            },
    {
        match self {
            TrayError::MissingService => Some("missing service name"),
            TrayError::InvalidService => Some("invalid service name"),
            TrayError::MissingProcess => Some("missing service PID"),
            TrayError::InvalidProcess => None,
        }
    }
}

pub open spec fn is_service(name: Seq<char>) -> bool {
    name == SERVICE_NAME@ || name == LEGACY_SERVICE_NAME@
}

/// Reads a tray's arguments: the service it belongs to, and the process that
/// runs it.
pub fn tray_arguments(service: Option<&str>, process: Option<&str>) -> (owner: Result<
    u32,
    TrayError,
>)
    ensures
        owner == (match service {
            None => Err::<u32, TrayError>(TrayError::MissingService),
            Some(name) => if !is_service(name@) {
                Err(TrayError::InvalidService)
            } else {
                match process {
                    None => Err(TrayError::MissingProcess),
                    Some(id) => match text::parsed_u32(id@) {
                        Some(number) => Ok(number),
                        None => Err(TrayError::InvalidProcess),
                    },
                }
            },
        }),
{
    let name = match service {
        Some(name) => name,
        None => {
            return Err(TrayError::MissingService);
        },
    };
    if !same_text(name, SERVICE_NAME) && !same_text(name, LEGACY_SERVICE_NAME) {
        return Err(TrayError::InvalidService);
    }
    match process {
        None => Err(TrayError::MissingProcess),
        Some(id) => match parse_u32(id) {
            Some(number) => Ok(number),
            None => Err(TrayError::InvalidProcess),
        },
    }
}

/// Whether a tray stays up: its service runs, in the process that started it.
pub fn owner_runs(running: bool, process: Option<u32>, owner: u32) -> (runs: bool)
    ensures
        runs == (running && process == Some(owner)),
{
    match process {
        Some(id) => running && id == owner,
        None => false,
    }
}

#[derive(Debug, Clone, Copy, PartialEq, Eq, Structural)]
pub enum IconError {
    /// Not an icon of one image.
    Header,
    /// The image is not inside the file.
    Range,
}

impl IconError {
    pub open spec fn text_of(self) -> Seq<char> {
        match self {
            IconError::Header => "tray.ico must contain one image"@,
            IconError::Range => "invalid tray.ico image range"@,
        }
    }

    pub fn message(&self) -> (text: &'static str)
        ensures
            text@ == self.text_of(),
    {
        match self {
            IconError::Header => "tray.ico must contain one image",
            IconError::Range => "invalid tray.ico image range",
        }
    }
}

pub open spec fn little_endian(bytes: Seq<u8>, at: int) -> nat {
    (bytes[at] + bytes[at + 1] * 256 + bytes[at + 2] * 65536 + bytes[at + 3] * 16777216) as nat
}

fn read_u32(bytes: &[u8], at: usize) -> (value: u64)
    requires
        at + 4 <= bytes@.len(),
    ensures
        value == little_endian(bytes@, at as int),
{
    bytes[at] as u64 + bytes[at + 1] as u64 * 256 + bytes[at + 2] as u64 * 65536 + bytes[at
        + 3] as u64 * 16777216
}

/// The image of an icon file with one image: where it starts and how long it is.
pub open spec fn image_of(bytes: Seq<u8>) -> Result<(nat, nat), IconError> {
    if bytes.len() < 22 || bytes.take(6) != seq![0u8, 0u8, 1u8, 0u8, 1u8, 0u8] {
        Err(IconError::Header)
    } else if little_endian(bytes, 18) + little_endian(bytes, 14) > bytes.len() {
        Err(IconError::Range)
    } else {
        Ok((little_endian(bytes, 18), little_endian(bytes, 14)))
    }
}

pub fn icon_image(bytes: &[u8]) -> (image: Result<(usize, usize), IconError>)
    ensures
        match (image, image_of(bytes@)) {
            (Ok((offset, length)), Ok((at, size))) => offset == at && length == size,
            (Err(error), Err(expected)) => error == expected,
            _ => false,
        },
{
    let total: usize = bytes.len();
    if total < 22 {
        return Err(IconError::Header);
    }
    if bytes[0] != 0 || bytes[1] != 0 || bytes[2] != 1 || bytes[3] != 0 || bytes[4] != 1 || bytes[5]
        != 0 {
        proof {
            let expected = seq![0u8, 0u8, 1u8, 0u8, 1u8, 0u8];
            let head = bytes@.take(6);
            assert(head[0] == bytes@[0] && head[1] == bytes@[1] && head[2] == bytes@[2] && head[3]
                == bytes@[3] && head[4] == bytes@[4] && head[5] == bytes@[5]);
        }
        return Err(IconError::Header);
    }
    assert(bytes@.take(6) =~= seq![0u8, 0u8, 1u8, 0u8, 1u8, 0u8]);
    let length: u64 = read_u32(bytes, 14);
    let offset: u64 = read_u32(bytes, 18);
    if offset + length > total as u64 {
        return Err(IconError::Range);
    }
    Ok((offset as usize, length as usize))
}

/// What a tray's window does on a message.
#[derive(Debug, Clone, Copy, PartialEq, Eq, Structural)]
pub enum TrayAction {
    Nothing,
    /// Add the icon, and try again later if that fails.
    AddIcon,
    Close,
    /// Take the icon away and end.
    RemoveIcon,
    Default,
}

pub const WM_DESTROY: u32 = 0x0002;

pub const WM_CLOSE: u32 = 0x0010;

pub const WM_TIMER: u32 = 0x0113;

/// What a tray's window does on a message; `taskbar_created` is the message that
/// tells of a new taskbar, or 0 if there is none.
pub fn window_action(message: u32, taskbar_created: u32, has_icon: bool) -> (action: TrayAction)
    ensures
        action == (if message == WM_TIMER || (taskbar_created != 0 && message
            == taskbar_created) {
            if has_icon {
                TrayAction::AddIcon
            } else {
                TrayAction::Nothing
            }
        } else if message == WM_CLOSE {
            TrayAction::Close
        } else if message == WM_DESTROY {
            TrayAction::RemoveIcon
        } else {
            TrayAction::Default
        }),
{
    if message == WM_TIMER || (taskbar_created != 0 && message == taskbar_created) {
        if has_icon {
            TrayAction::AddIcon
        } else {
            TrayAction::Nothing
        }
    } else if message == WM_CLOSE {
        TrayAction::Close
    } else if message == WM_DESTROY {
        TrayAction::RemoveIcon
    } else {
        TrayAction::Default
    }
}

/// Every active session but the services' own gets a tray, in the order that they
/// are listed in, and no other.
pub proof fn active_users_get_trays(listed: Seq<ListedSession>)
    ensures
        tray_sessions(listed) == listed.filter(
            |session: ListedSession| session.active && session.id != 0,
        ).map_values(|session: ListedSession| session.id),
    decreases listed.len(),
{
    let wanted = |session: ListedSession| session.active && session.id != 0;
    let id = |session: ListedSession| session.id;
    reveal(Seq::filter);
    if listed.len() > 0 {
        let shorter = listed.drop_last();
        active_users_get_trays(shorter);
        assert(wanted(listed.last()) ==> listed.filter(wanted).map_values(id) =~= shorter.filter(
            wanted,
        ).map_values(id).push(listed.last().id));
    } else {
        assert(listed.filter(wanted).map_values(id) =~= seq![]);
    }
}

/// A tray that runs for a session that is still there is left alone, and any other
/// is dropped.
pub proof fn running_trays_stay(trays: Seq<Tray>, sessions: Seq<u32>)
    ensures
        retained(trays, sessions) == trays.filter(
            |tray: Tray| tray.running && sessions.contains(tray.session),
        ),
    decreases trays.len(),
{
    reveal(Seq::filter);
    if trays.len() > 0 {
        running_trays_stay(trays.drop_last(), sessions);
    }
}

/// A tray is started for the service and the process that own it, in this order,
/// behind the executable, which may have spaces in its path.
pub proof fn trays_are_told_their_owner(
    executable: Seq<char>,
    service: Seq<char>,
    process_id: u32,
)
    ensures
        command_of(executable, service, process_id) == seq!['"'] + executable + seq![
            '"',
            ' ',
            '-',
            '-',
            't',
            'r',
            'a',
            'y',
            ' ',
        ] + service + seq![' '] + text::decimal(process_id as nat),
{
    reveal_strlit("\"");
    reveal_strlit("\" --tray ");
    reveal_strlit(" ");
    assert("\""@ =~= seq!['"']);
    assert("\" --tray "@ =~= seq!['"', ' ', '-', '-', 't', 'r', 'a', 'y', ' ']);
    assert(" "@ =~= seq![' ']);
}

/// Where an icon's image begins and how long it is, is read from its bytes with
/// the lowest first; an image is accepted exactly when it ends within the file.
pub proof fn images_are_inside_their_file(
    head: Seq<u8>,
    length: u32,
    offset: u32,
    rest: Seq<u8>,
)
    requires
        head.len() == 14,
        head[0] == 0,
        head[1] == 0,
        head[2] == 1,
        head[3] == 0,
        head[4] == 1,
        head[5] == 0,
    ensures
        ({
            let sizes = seq![
                (length % 256) as u8,
                (length / 256 % 256) as u8,
                (length / 65536 % 256) as u8,
                (length / 16777216) as u8,
                (offset % 256) as u8,
                (offset / 256 % 256) as u8,
                (offset / 65536 % 256) as u8,
                (offset / 16777216) as u8,
            ];
            let bytes = head + sizes + rest;
            image_of(bytes) == (if offset + length <= bytes.len() {
                Ok::<(nat, nat), IconError>((offset as nat, length as nat))
            } else {
                Err(IconError::Range)
            })
        }),
{
    let sizes = seq![
        (length % 256) as u8,
        (length / 256 % 256) as u8,
        (length / 65536 % 256) as u8,
        (length / 16777216) as u8,
        (offset % 256) as u8,
        (offset / 256 % 256) as u8,
        (offset / 65536 % 256) as u8,
        (offset / 16777216) as u8,
    ];
    let bytes = head + sizes + rest;
    assert(bytes.take(6) =~= seq![0u8, 0u8, 1u8, 0u8, 1u8, 0u8]);
    assert forall|i: int| 0 <= i < 8 implies bytes[14 + i] == sizes[i] by {}
    assert(bytes[14] == sizes[0] && bytes[15] == sizes[1] && bytes[16] == sizes[2] && bytes[17]
        == sizes[3]);
    assert(bytes[18] == sizes[4] && bytes[19] == sizes[5] && bytes[20] == sizes[6] && bytes[21]
        == sizes[7]);
    lemma_four_bytes(length);
    lemma_four_bytes(offset);
}

proof fn lemma_four_bytes(value: u32)
    ensures
        value % 256 + value / 256 % 256 * 256 + value / 65536 % 256 * 65536 + value / 16777216
            * 16777216 == value,
        value / 16777216 < 256,
{
    assert(value % 256 + value / 256 % 256 * 256 + value / 65536 % 256 * 65536 + value / 16777216
        * 16777216 == value && value / 16777216 < 256) by (bit_vector);
}

/// A file that is too short for an icon, or that does not say that it is one of a
/// single image, is none.
pub proof fn other_files_are_no_icons(bytes: Seq<u8>)
    ensures
        image_of(bytes) == Err::<(nat, nat), IconError>(IconError::Header) <==> bytes.len() < 22
            || bytes[0] != 0 || bytes[1] != 0 || bytes[2] != 1 || bytes[3] != 0 || bytes[4] != 1
            || bytes[5] != 0,
        is_service(SERVICE_NAME@),
        is_service(LEGACY_SERVICE_NAME@),
{
    let expected = seq![0u8, 0u8, 1u8, 0u8, 1u8, 0u8];
    if bytes.len() >= 22 {
        let head = bytes.take(6);
        assert(head[0] == bytes[0] && head[1] == bytes[1] && head[2] == bytes[2] && head[3]
            == bytes[3] && head[4] == bytes[4] && head[5] == bytes[5]);
        if bytes[0] == 0 && bytes[1] == 0 && bytes[2] == 1 && bytes[3] == 0 && bytes[4] == 1
            && bytes[5] == 0 {
            assert(head =~= expected);
        }
    }
}

/// An icon that is refused says what is wrong with it.
pub proof fn icon_errors_say_what_is_wrong(error: IconError)
    ensures
        error == IconError::Header ==> error.text_of() == "tray.ico must contain one image"@,
        error == IconError::Range ==> error.text_of() == "invalid tray.ico image range"@,
{
}

/// A session has a tray exactly when one of the trays is that session's.
pub proof fn sessions_have_their_own_trays(trays: Trays, session: u32)
    ensures
        trays.has(session) <==> trays.running@.map_values(|tray: Tray| tray.session).contains(
            session,
        ),
{
    let sessions = trays.running@.map_values(|tray: Tray| tray.session);
    if trays.has(session) {
        let at = choose|i: int|
            0 <= i < trays.running@.len() && (#[trigger] trays.running@[i]).session == session;
        assert(sessions[at] == session);
    }
    if sessions.contains(session) {
        let at = choose|i: int| 0 <= i < sessions.len() && sessions[i] == session;
        assert(trays.running@[at].session == session);
    }
}

} // verus!
