//! Rules for asking for, keeping and filling in Windows credentials.
use crate::dispatch::{Credentials, CredentialsView, Shared, SharedView};
use crate::text;
use crate::text::{after_prefix, find_char, joined, same_text};
use vstd::prelude::*;
use vstd::string::StrSliceExecFns;

verus! {

/// What a viewer may ask about credentials.
#[derive(Debug, Clone, Copy, PartialEq, Eq, Structural)]
pub enum CredentialCommand {
    Prompt,
    Autofill,
    Forget,
    Other,
}

/// Why a credential command is refused.
#[derive(Debug, Clone, Copy, PartialEq, Eq, Structural)]
pub enum CredentialRefusal {
    Background,
    NoChatHelper,
    AlreadyOpen,
    NothingToFill,
    NoInputHelper,
    NothingSaved,
    DialogOpen,
    Invalid,
}

impl CredentialRefusal {
    pub open spec fn text_of(self) -> Seq<char> {
        match self {
            CredentialRefusal::Background => "Credentials are unavailable in background sessions"@,
            CredentialRefusal::NoChatHelper => "Unlock Windows before requesting credentials"@,
            CredentialRefusal::AlreadyOpen => "A credential request is already open"@,
            CredentialRefusal::NothingToFill => "No saved credentials or Windows password prompt"@,
            CredentialRefusal::NoInputHelper => "Windows desktop is switching; try again"@,
            CredentialRefusal::NothingSaved => "No saved credentials"@,
            CredentialRefusal::DialogOpen =>
                "Close the credential dialog before forgetting credentials"@,
            CredentialRefusal::Invalid => "Invalid credential command"@,
        }
    }

    pub fn text(&self) -> (text: &'static str)
        ensures
            text@ == self.text_of(),
    {
        match self {
            CredentialRefusal::Background => "Credentials are unavailable in background sessions",
            CredentialRefusal::NoChatHelper => "Unlock Windows before requesting credentials",
            CredentialRefusal::AlreadyOpen => "A credential request is already open",
            CredentialRefusal::NothingToFill => "No saved credentials or Windows password prompt",
            CredentialRefusal::NoInputHelper => "Windows desktop is switching; try again",
            CredentialRefusal::NothingSaved => "No saved credentials",
            CredentialRefusal::DialogOpen =>
                "Close the credential dialog before forgetting credentials",
            CredentialRefusal::Invalid => "Invalid credential command",
        }
    }
}

/// What an accepted credential command does next.
#[derive(Debug, Clone, Copy, PartialEq, Eq, Structural)]
pub enum CredentialAction {
    /// Send the prompt command to the chat helper; see `prompt_sent`.
    SendPrompt,
    /// Load the saved credentials; see `saved_loaded`.
    LoadSaved,
    /// Delete the saved credentials; see `forgotten`.
    DeleteSaved,
}

/// Whether, and why not, a credential command is accepted.
pub open spec fn command_outcome(
    credentials: CredentialsView,
    command: CredentialCommand,
    background: bool,
    chat_routed: bool,
    input_routed: bool,
) -> Result<CredentialAction, CredentialRefusal> {
    if background && command != CredentialCommand::Forget {
        Err(CredentialRefusal::Background)
    } else {
        match command {
            CredentialCommand::Prompt => if !chat_routed {
                Err(CredentialRefusal::NoChatHelper)
            } else if credentials.prompt_active {
                Err(CredentialRefusal::AlreadyOpen)
            } else {
                Ok(CredentialAction::SendPrompt)
            },
            CredentialCommand::Autofill => if !(credentials.saved && credentials.can_autofill
                && !credentials.prompt_active) {
                Err(CredentialRefusal::NothingToFill)
            } else if !input_routed {
                Err(CredentialRefusal::NoInputHelper)
            } else {
                Ok(CredentialAction::LoadSaved)
            },
            CredentialCommand::Forget => if credentials.prompt_active {
                Err(CredentialRefusal::DialogOpen)
            } else {
                Ok(CredentialAction::DeleteSaved)
            },
            CredentialCommand::Other => Err(CredentialRefusal::Invalid),
        }
    }
}

pub open spec fn with_credentials(shared: SharedView, credentials: CredentialsView) -> SharedView {
    SharedView { credentials, ..shared }
}

/// Accepts or refuses a credential command. An accepted prompt counts as open
/// from here on.
pub fn credential_command(
    shared: &mut Shared,
    command: CredentialCommand,
    background: bool,
    chat_routed: bool,
    input_routed: bool,
) -> (result: Result<CredentialAction, CredentialRefusal>)
    ensures
        result == command_outcome(
            old(shared)@.credentials,
            command,
            background,
            chat_routed,
            input_routed,
        ),
        final(shared)@ == (if result == Ok::<CredentialAction, CredentialRefusal>(
            CredentialAction::SendPrompt,
        ) {
            with_credentials(
                old(shared)@,
                CredentialsView {
                    prompt_active: true,
                    message: "Waiting for the remote user…"@,
                    ..old(shared)@.credentials
                },
            )
        } else {
            old(shared)@
        }),
{
    if background && command != CredentialCommand::Forget {
        return Err(CredentialRefusal::Background);
    }
    match command {
        CredentialCommand::Prompt => {
            if !chat_routed {
                return Err(CredentialRefusal::NoChatHelper);
            }
            if shared.credentials.prompt_active {
                return Err(CredentialRefusal::AlreadyOpen);
            }
            shared.credentials.prompt_active = true;
            shared.credentials.message = "Waiting for the remote user…".to_owned();
            Ok(CredentialAction::SendPrompt)
        },
        CredentialCommand::Autofill => {
            if !(shared.credentials.saved && shared.credentials.can_autofill
                && !shared.credentials.prompt_active) {
                return Err(CredentialRefusal::NothingToFill);
            }
            if !input_routed {
                return Err(CredentialRefusal::NoInputHelper);
            }
            Ok(CredentialAction::LoadSaved)
        },
        CredentialCommand::Forget => {
            if shared.credentials.prompt_active {
                return Err(CredentialRefusal::DialogOpen);
            }
            Ok(CredentialAction::DeleteSaved)
        },
        CredentialCommand::Other => Err(CredentialRefusal::Invalid),
    }
}

/// A prompt that could not be sent is not open.
pub fn prompt_sent(shared: &mut Shared, sent: bool)
    ensures
        final(shared)@ == with_credentials(
            old(shared)@,
            CredentialsView {
                prompt_active: sent && old(shared)@.credentials.prompt_active,
                ..old(shared)@.credentials
            },
        ),
{
    if !sent {
        shared.credentials.prompt_active = false;
    }
}

/// Saved credentials that turn out to be gone are no longer offered.
pub fn saved_loaded(shared: &mut Shared, found: bool) -> (result: Result<(), CredentialRefusal>)
    ensures
        result == (if found {
            Ok::<(), CredentialRefusal>(())
        } else {
            Err::<(), CredentialRefusal>(CredentialRefusal::NothingSaved)
        }),
        final(shared)@ == with_credentials(
            old(shared)@,
            CredentialsView {
                saved: found && old(shared)@.credentials.saved,
                ..old(shared)@.credentials
            },
        ),
{
    if !found {
        shared.credentials.saved = false;
        return Err(CredentialRefusal::NothingSaved);
    }
    Ok(())
}

/// Records that the saved credentials have been deleted.
pub fn forgotten(shared: &mut Shared)
    ensures
        final(shared)@ == with_credentials(
            old(shared)@,
            CredentialsView {
                saved: false,
                message: "Saved credentials cleared"@,
                ..old(shared)@.credentials
            },
        ),
{
    shared.credentials.saved = false;
    shared.credentials.message = "Saved credentials cleared".to_owned();
}

/// What the viewer is told about credentials.
#[derive(Debug)]
pub struct CredentialState {
    pub available: bool,
    pub saved: bool,
    pub prompt_active: bool,
    pub can_autofill: bool,
    pub message: String,
}

/// Filling in is offered only where it would be accepted.
pub fn credential_state(shared: &Shared, background: bool) -> (state: CredentialState)
    ensures
        state.available == !background,
        state.saved == shared@.credentials.saved,
        state.prompt_active == shared@.credentials.prompt_active,
        state.can_autofill == (shared@.credentials.can_autofill && !background
            && shared@.credentials.saved && !shared@.credentials.prompt_active),
        state.message@ == shared@.credentials.message,
{
    let available = !background;
    CredentialState {
        available,
        saved: shared.credentials.saved,
        prompt_active: shared.credentials.prompt_active,
        can_autofill: shared.credentials.can_autofill && available && shared.credentials.saved
            && !shared.credentials.prompt_active,
        message: shared.credentials.message.clone(),
    }
}

/// The viewer is offered to fill in credentials exactly when the command would
/// be accepted by a routed input helper.
pub proof fn offered_iff_accepted(credentials: CredentialsView, background: bool, chat_routed: bool)
    ensures
        (credentials.can_autofill && !background && credentials.saved && !credentials.prompt_active)
            <==> command_outcome(
            credentials,
            CredentialCommand::Autofill,
            background,
            chat_routed,
            true,
        ) is Ok,
{
}

/// The lowercase form that `str::to_lowercase` gives a text.
pub uninterp spec fn lowercase(text: Seq<char>) -> Seq<char>;

/// `str::to_lowercase`: the text in lowercase, by the Unicode tables that std
/// carries. What it makes of a given text is only named, not stated.
#[verifier::external_body]
fn to_lowercase(text: &str) -> (lower: String)
    ensures
        lower@ == lowercase(text@),
{
    text.to_lowercase()
}

pub open spec fn is_prompt_process(path: Seq<char>, system_root: Seq<char>) -> bool {
    path == system_root + "\\system32\\logonui.exe"@ || path == system_root
        + "\\system32\\consent.exe"@
}

/// Whether a lowercase path is one of the two programs that show Windows
/// credential prompts.
pub fn prompt_process(path: &str, system_root: &str) -> (trusted: bool)
    ensures
        trusted == is_prompt_process(path@, system_root@),
{
    let logon = joined(system_root, "\\system32\\logonui.exe");
    let consent = joined(system_root, "\\system32\\consent.exe");
    same_text(path, logon.as_str()) || same_text(path, consent.as_str())
}

/// Whether the program at `path` may be trusted with credentials.
pub fn trusted_prompt_process(path: &str, system_root: &str) -> (trusted: bool)
    ensures
        trusted == is_prompt_process(lowercase(path@), lowercase(system_root@)),
{
    let path = to_lowercase(path);
    let system_root = to_lowercase(system_root);
    prompt_process(path.as_str(), system_root.as_str())
}

pub open spec fn is_digit(c: char) -> bool {
    '0' <= c && c <= '9'
}

/// A lowercase automation id that Windows password fields have.
pub open spec fn is_password_id(id: Seq<char>) -> bool {
    ||| id == "password"@
    ||| id == "passwordfield"@
    ||| {
        let prefix = "passwordfield_"@;
        &&& text::begins_with(id, prefix)
        &&& id.len() > prefix.len()
        &&& forall|i: int| prefix.len() <= i < id.len() ==> is_digit(#[trigger] id[i])
    }
}

fn all_digits(text: &str) -> (digits: bool)
    ensures
        digits == (text@.len() > 0 && forall|i: int|
            0 <= i < text@.len() ==> is_digit(#[trigger] text@[i])),
{
    let length: usize = text.unicode_len();
    let mut next: usize = 0;
    while next < length
        invariant
            next <= length,
            length == text@.len(),
            forall|i: int| 0 <= i < next ==> is_digit(#[trigger] text@[i]),
        decreases length - next,
    {
        let c = text.get_char(next);
        if c < '0' || '9' < c {
            assert(!is_digit(text@[next as int]));
            return false;
        }
        next += 1;
    }
    length > 0
}

/// Whether a lowercase automation id belongs to a Windows password field;
/// fields for a PIN or of another provider have others.
pub fn password_id(id: &str) -> (supported: bool)
    ensures
        supported == is_password_id(id@),
{
    if same_text(id, "password") || same_text(id, "passwordfield") {
        return true;
    }
    match after_prefix(id, "passwordfield_") {
        Some(suffix) => {
            let digits = all_digits(suffix);
            proof {
                let prefix = "passwordfield_"@;
                assert forall|i: int| prefix.len() <= i < id@.len() implies id@[i] == suffix@[i
                    - prefix.len()] by {}
                if is_password_id(id@) {
                    assert forall|i: int| 0 <= i < suffix@.len() implies is_digit(
                        #[trigger] suffix@[i],
                    ) by {
                        assert(is_digit(id@[i + prefix.len()]));
                    }
                }
            }
            digits
        },
        None => false,
    }
}

/// Whether a field with this automation id may be given a password.
pub fn supported_password_id(id: &str) -> (supported: bool)
    ensures
        supported == is_password_id(lowercase(id@)),
{
    let id = to_lowercase(id);
    password_id(id.as_str())
}

/// The account that a user name stands for: `domain\\user` names its domain,
/// `user@domain` carries it, and any other name is local.
#[derive(Debug)]
pub struct Account {
    pub domain: Option<String>,
    pub name: String,
}

pub open spec fn account_of(username: Seq<char>) -> (Option<Seq<char>>, Seq<char>) {
    match text::first_index(username, '\\') {
        Some(at) => (Some(username.take(at)), username.skip(at + 1)),
        None => if text::first_index(username, '@') is Some {
            (None, username)
        } else {
            (Some("."@), username)
        },
    }
}

/// Splits a user name for a logon attempt.
pub fn split_account(username: &str) -> (account: Account)
    ensures
        account.name@ == account_of(username@).1,
        match account_of(username@).0 {
            Some(domain) => account.domain is Some && account.domain->Some_0@ == domain,
            None => account.domain is None,
        },
{
    match find_char(username, '\\') {
        Some(at) => {
            let length: usize = username.unicode_len();
            let domain = username.substring_char(0, at);
            let name = username.substring_char(at + 1, length);
            assert(domain@ =~= username@.take(at as int));
            assert(name@ =~= username@.skip(at + 1));
            Account { domain: Some(domain.to_owned()), name: name.to_owned() }
        },
        None => {
            let domain = match find_char(username, '@') {
                Some(_) => None,
                None => Some(".".to_owned()),
            };
            Account { domain, name: username.to_owned() }
        },
    }
}

/// How many 16-bit units the user name takes in protected credentials.
pub const USER_UNITS: usize = 514;

/// How many 16-bit units the password takes in protected credentials.
pub const PASSWORD_UNITS: usize = 257;

pub const CREDENTIAL_BYTES: usize = 1542;

/// The units of a buffer before its terminator.
pub open spec fn terminated(units: Seq<u16>) -> Seq<u16>
    decreases units.len(),
{
    if units.len() == 0 || units[0] == 0 {
        seq![]
    } else {
        seq![units[0]] + terminated(units.skip(1))
    }
}

proof fn lemma_terminated(units: Seq<u16>, at: int)
    requires
        0 <= at <= units.len(),
        forall|i: int| 0 <= i < at ==> units[i] != 0,
        at < units.len() ==> units[at] == 0,
    ensures
        terminated(units) == units.take(at),
    decreases units.len(),
{
    if at == 0 {
        assert(units.take(0) =~= seq![]);
    } else {
        lemma_terminated(units.skip(1), at - 1);
        assert(units.take(at) =~= seq![units[0]] + units.skip(1).take(at - 1));
    }
}

/// Where the terminator of a buffer stands, or its end.
pub fn end(units: &[u16]) -> (at: usize)
    ensures
        at <= units@.len(),
        terminated(units@) == units@.take(at as int),
        at < units@.len() ==> units@[at as int] == 0,
        forall|i: int| 0 <= i < at ==> units@[i] != 0,
{
    let mut at: usize = 0;
    while at < units.len() && units[at] != 0
        invariant
            at <= units@.len(),
            forall|i: int| 0 <= i < at ==> units@[i] != 0,
        decreases units@.len() - at,
    {
        at += 1;
    }
    proof {
        lemma_terminated(units@, at as int);
    }
    at
}

/// `String::from_utf16`: the text that the units encode, or nothing if they
/// encode none.
#[verifier::external_body]
fn text_from_utf16(units: &[u16]) -> (text: Option<String>)
    ensures
        text matches Some(value) ==> text::utf16(value@) == units@,
        text is None ==> forall|other: Seq<char>| #[trigger] text::utf16(other) != units@,
{
    String::from_utf16(units).ok()
}

/// Why entered credentials are not tried.
#[derive(Debug, Clone, Copy, PartialEq, Eq, Structural)]
pub enum PromptRefusal {
    NoPassword,
    /// The user name is no text.
    NotText,
}

impl PromptRefusal {
    pub open spec fn text_of(self) -> Seq<char> {
        match self {
            PromptRefusal::NoPassword =>
                "A Windows password is required; PINs and empty passwords are not supported"@,
            PromptRefusal::NotText => "invalid utf-16: lone surrogate found"@,
        }
    }

    pub fn message(&self) -> (text: &'static str)
        ensures
            text@ == self.text_of(),
    {
        match self {
            PromptRefusal::NoPassword =>
                "A Windows password is required; PINs and empty passwords are not supported",
            PromptRefusal::NotText => "invalid utf-16: lone surrogate found",
        }
    }
}

/// Credentials that are tried once.
#[derive(Debug)]
pub struct LogonAttempt {
    pub username: String,
    pub account: Account,
}

/// What a submitted credential dialog comes to, given its two buffers.
pub fn prompt(user: &[u16], password: &[u16]) -> (result: Result<LogonAttempt, PromptRefusal>)
    ensures
        match result {
            Ok(attempt) => {
                &&& terminated(password@).len() > 0
                &&& text::utf16(attempt.username@) == terminated(user@)
                &&& attempt.account.name@ == account_of(attempt.username@).1
                &&& match account_of(attempt.username@).0 {
                    Some(domain) => attempt.account.domain is Some
                        && attempt.account.domain->Some_0@ == domain,
                    None => attempt.account.domain is None,
                }
            },
            Err(PromptRefusal::NoPassword) => terminated(password@).len() == 0,
            Err(PromptRefusal::NotText) => terminated(password@).len() > 0 && forall|
                other: Seq<char>,
            | #[trigger] text::utf16(other) != terminated(user@),
        },
{
    if end(password) == 0 {
        return Err(PromptRefusal::NoPassword);
    }
    let length: usize = end(user);
    let units = vstd::slice::slice_subrange(user, 0, length);
    assert(units@ =~= user@.take(length as int));
    match text_from_utf16(units) {
        Some(username) => {
            let account = split_account(username.as_str());
            Ok(LogonAttempt { username, account })
        },
        None => Err(PromptRefusal::NotText),
    }
}

/// The bytes of 16-bit units, low byte first.
pub open spec fn unit_bytes(units: Seq<u16>) -> Seq<u8> {
    Seq::new(
        2 * units.len(),
        |i: int|
            if i % 2 == 0 {
                (units[i / 2] % 256) as u8
            } else {
                (units[i / 2] / 256) as u8
            },
    )
}

/// Lays out user name and password buffers for protection.
pub fn plain_credentials(user: &[u16], password: &[u16]) -> (plain: Vec<u8>)
    ensures
        plain@ == unit_bytes(user@ + password@),
{
    let mut plain: Vec<u8> = Vec::new();
    push_units(&mut plain, user);
    push_units(&mut plain, password);
    assert(plain@ =~= unit_bytes(user@ + password@));
    plain
}

fn push_units(out: &mut Vec<u8>, units: &[u16])
    ensures
        final(out)@ == old(out)@ + unit_bytes(units@),
{
    let mut next: usize = 0;
    assert(unit_bytes(units@.take(0)) =~= seq![]);
    while next < units.len()
        invariant
            next <= units@.len(),
            out@ == old(out)@ + unit_bytes(units@.take(next as int)),
        decreases units@.len() - next,
    {
        let unit: u16 = units[next];
        out.push((unit % 256) as u8);
        out.push((unit / 256) as u8);
        assert(out@ =~= old(out)@ + unit_bytes(units@.take(next + 1)));
        next += 1;
    }
    assert(units@.take(next as int) =~= units@);
}

/// Why unprotected credentials cannot be used.
#[derive(Debug, Clone, Copy, PartialEq, Eq, Structural)]
pub enum CredentialDataError {
    Length,
    Terminators,
}

impl CredentialDataError {
    pub open spec fn text_of(self) -> Seq<char> {
        match self {
            CredentialDataError::Length => "Invalid protected credential data"@,
            CredentialDataError::Terminators => "Invalid credential terminators"@,
        }
    }

    pub fn message(&self) -> (text: &'static str)
        ensures
            text@ == self.text_of(),
    {
        match self {
            CredentialDataError::Length => "Invalid protected credential data",
            CredentialDataError::Terminators => "Invalid credential terminators",
        }
    }
}

/// The buffers in unprotected credentials; both have to end in a terminator.
pub fn split_credentials(plain: &[u8]) -> (result: Result<
    (Vec<u16>, Vec<u16>),
    CredentialDataError,
>)
    ensures
        match result {
            Ok((user, password)) => {
                &&& user@.len() == USER_UNITS
                &&& password@.len() == PASSWORD_UNITS
                &&& plain@ == unit_bytes(user@ + password@)
                &&& user@[USER_UNITS - 1] == 0
                &&& password@[PASSWORD_UNITS - 1] == 0
            },
            Err(CredentialDataError::Length) => plain@.len() != CREDENTIAL_BYTES,
            Err(CredentialDataError::Terminators) => plain@.len() == CREDENTIAL_BYTES && !(
            plain@[1026] == 0 && plain@[1027] == 0 && plain@[1540] == 0 && plain@[1541] == 0),
        },
{
    if plain.len() != CREDENTIAL_BYTES {
        return Err(CredentialDataError::Length);
    }
    let mut user = take_units(plain, 0, USER_UNITS);
    let mut password = take_units(plain, USER_UNITS, PASSWORD_UNITS);
    assert(user@[513] == plain@[1026] + 256 * plain@[1027]);
    assert(password@[256] == plain@[1540] + 256 * plain@[1541]);
    if user[USER_UNITS - 1] != 0 || password[PASSWORD_UNITS - 1] != 0 {
        wipe(&mut user);
        wipe(&mut password);
        return Err(CredentialDataError::Terminators);
    }
    proof {
        let units = user@ + password@;
        assert forall|i: int| 0 <= i < plain@.len() implies plain@[i] == unit_bytes(units)[i] by {
            let k = i / 2;
            if k < USER_UNITS {
                assert(units[k] == user@[k]);
                assert(plain@[2 * (0 + k)] == user@[k] % 256);
            } else {
                assert(units[k] == password@[k - USER_UNITS]);
                assert(plain@[2 * (USER_UNITS + (k - USER_UNITS))] == password@[k - USER_UNITS]
                    % 256);
            }
        }
        assert(plain@ =~= unit_bytes(units));
    }
    Ok((user, password))
}

fn take_units(bytes: &[u8], from: usize, count: usize) -> (units: Vec<u16>)
    requires
        2 * (from + count) <= bytes@.len(),
    ensures
        units@.len() == count,
        forall|k: int|
            0 <= k < count ==> #[trigger] units@[k] == bytes@[2 * (from + k)] + 256 * bytes@[2 * (
            from + k) + 1],
{
    let mut units: Vec<u16> = Vec::with_capacity(count);
    let length: usize = bytes.len();
    let mut next: usize = 0;
    while next < count
        invariant
            next <= count,
            units@.len() == next,
            length == bytes@.len(),
            2 * (from + count) <= bytes@.len(),
            forall|k: int|
                0 <= k < next ==> #[trigger] units@[k] == bytes@[2 * (from + k)] + 256 * bytes@[2
                    * (from + k) + 1],
        decreases count - next,
    {
        let at: usize = 2 * (from + next);
        units.push(bytes[at] as u16 + 256 * bytes[at + 1] as u16);
        next += 1;
    }
    units
}

/// Buffers that were laid out are found again.
pub proof fn credentials_round_trip(
    user: Seq<u16>,
    password: Seq<u16>,
    found_user: Seq<u16>,
    found_password: Seq<u16>,
)
    requires
        user.len() == USER_UNITS,
        password.len() == PASSWORD_UNITS,
        found_user.len() == USER_UNITS,
        found_password.len() == PASSWORD_UNITS,
        unit_bytes(user + password) == unit_bytes(found_user + found_password),
    ensures
        user == found_user,
        password == found_password,
{
    let units = user + password;
    let found = found_user + found_password;
    assert forall|k: int| 0 <= k < units.len() implies units[k] == found[k] by {
        assert(unit_bytes(units)[2 * k] == unit_bytes(found)[2 * k]);
        assert(unit_bytes(units)[2 * k + 1] == unit_bytes(found)[2 * k + 1]);
        assert(units[k] == units[k] % 256 + 256 * (units[k] / 256));
        assert(found[k] == found[k] % 256 + 256 * (found[k] / 256));
    }
    assert forall|k: int| 0 <= k < user.len() implies user[k] == found_user[k] by {
        assert(units[k] == found[k]);
    }
    assert forall|k: int| 0 <= k < password.len() implies password[k] == found_password[k] by {
        assert(units[USER_UNITS + k] == found[USER_UNITS + k]);
    }
    assert(user =~= found_user);
    assert(password =~= found_password);
}

/// `zeroize::Zeroize::zeroize` of a vector: every unit of it is overwritten, and
/// the vector is empty afterwards. What is left in memory is not stated, since a
/// view of a vector has no memory.
#[verifier::external_body]
fn wipe(units: &mut Vec<u16>)
    ensures
        final(units)@ == Seq::<u16>::empty(),
{
    zeroize::Zeroize::zeroize(units);
}

/// A step of filling in a credential prompt.
#[derive(Debug)]
pub enum FillStep {
    /// The prompt has to be in front still; see `prompt_in_front`.
    CheckFront,
    SetUsername(Vec<u16>),
    SetPassword(Vec<u16>),
}

pub enum FillView {
    CheckFront,
    SetUsername(Seq<u16>),
    SetPassword(Seq<u16>),
}

impl View for FillStep {
    type V = FillView;

    open spec fn view(&self) -> FillView {
        match *self {
            FillStep::CheckFront => FillView::CheckFront,
            FillStep::SetUsername(units) => FillView::SetUsername(units@),
            FillStep::SetPassword(units) => FillView::SetPassword(units@),
        }
    }
}

impl FillStep {
    /// Wipes what the step fills in, once it has been carried out.
    pub fn wipe(&mut self)
        ensures
            final(self)@ == (match old(self)@ {
                FillView::CheckFront => FillView::CheckFront,
                FillView::SetUsername(_) => FillView::SetUsername(seq![]),
                FillView::SetPassword(_) => FillView::SetPassword(seq![]),
            }),
    {
        match self {
            FillStep::CheckFront => {},
            FillStep::SetUsername(units) => {
                wipe(units);
            },
            FillStep::SetPassword(units) => {
                wipe(units);
            },
        }
    }
}

/// The steps of filling in a prompt; it need not ask for a user name.
pub open spec fn fill_views(user: Seq<u16>, password: Seq<u16>, asks_user: bool) -> Seq<FillView> {
    if asks_user {
        seq![
            FillView::CheckFront,
            FillView::SetUsername(terminated(user)),
            FillView::CheckFront,
            FillView::SetPassword(terminated(password)),
        ]
    } else {
        seq![
            FillView::CheckFront,
            FillView::CheckFront,
            FillView::SetPassword(terminated(password)),
        ]
    }
}

fn text_units(units: &[u16]) -> (text: Vec<u16>)
    ensures
        text@ == terminated(units@),
{
    let length: usize = end(units);
    let mut text: Vec<u16> = Vec::with_capacity(length);
    let mut next: usize = 0;
    while next < length
        invariant
            next <= length <= units@.len(),
            text@ =~= units@.take(next as int),
        decreases length - next,
    {
        text.push(units[next]);
        next += 1;
    }
    text
}

/// How unprotected credentials are filled in, if they can be.
pub fn fill(plain: &[u8], asks_user: bool) -> (result: Result<Vec<FillStep>, CredentialDataError>)
    ensures
        match result {
            Ok(steps) => exists|user: Seq<u16>, password: Seq<u16>|
                user.len() == USER_UNITS && password.len() == PASSWORD_UNITS && plain@
                    == unit_bytes(user + password) && user[USER_UNITS - 1] == 0
                    && password[PASSWORD_UNITS - 1] == 0 && steps@.map_values(
                    |step: FillStep| step@,
                ) == #[trigger] fill_views(user, password, asks_user),
            Err(CredentialDataError::Length) => plain@.len() != CREDENTIAL_BYTES,
            Err(CredentialDataError::Terminators) => plain@.len() == CREDENTIAL_BYTES && !(
            plain@[1026] == 0 && plain@[1027] == 0 && plain@[1540] == 0 && plain@[1541] == 0),
        },
{
    let (mut user, mut password) = match split_credentials(plain) {
        Ok(buffers) => buffers,
        Err(error) => {
            return Err(error);
        },
    };
    let mut steps: Vec<FillStep> = Vec::new();
    steps.push(FillStep::CheckFront);
    if asks_user {
        steps.push(FillStep::SetUsername(text_units(user.as_slice())));
    }
    steps.push(FillStep::CheckFront);
    steps.push(FillStep::SetPassword(text_units(password.as_slice())));
    assert(steps@.map_values(|step: FillStep| step@) =~= fill_views(user@, password@, asks_user));
    wipe(&mut user);
    wipe(&mut password);
    Ok(steps)
}

/// A prompt that has changed in the meantime is left alone.
pub fn prompt_in_front(in_front: bool) -> (result: Result<(), &'static str>)
    ensures
        result is Ok == in_front,
        result matches Err(reason) ==> reason@ == "Windows prompt changed; try again"@,
{
    if in_front {
        Ok(())
    } else {
        Err("Windows prompt changed; try again")
    }
}

/// Nothing is filled in without a look at the prompt right before, and the
/// password comes last.
pub proof fn prompt_is_looked_at_before_each_value(
    user: Seq<u16>,
    password: Seq<u16>,
    asks_user: bool,
    at: int,
)
    requires
        0 <= at < fill_views(user, password, asks_user).len(),
    ensures
        ({
            let steps = fill_views(user, password, asks_user);
            &&& steps[at] !is CheckFront ==> at > 0 && steps[at - 1] is CheckFront
            &&& steps[at] is SetPassword <==> at == steps.len() - 1
        }),
{
}

/// Why the window in front is not looked into.
#[derive(Debug, Clone, Copy, PartialEq, Eq, Structural)]
pub enum FrontError {
    NoWindow,
    /// The path of its program is no text.
    NotText,
    /// Its program is not one that shows Windows credential prompts.
    NoPrompt,
}

impl FrontError {
    pub open spec fn text_of(self) -> Seq<char> {
        match self {
            FrontError::NoWindow => "No foreground Windows prompt"@,
            FrontError::NotText => "invalid utf-16: lone surrogate found"@,
            FrontError::NoPrompt => "The foreground window is not a Windows credential prompt"@,
        }
    }

    pub fn message(&self) -> (text: &'static str)
        ensures
            text@ == self.text_of(),
    {
        match self {
            FrontError::NoWindow => "No foreground Windows prompt",
            FrontError::NotText => "invalid utf-16: lone surrogate found",
            FrontError::NoPrompt => "The foreground window is not a Windows credential prompt",
        }
    }
}

/// Whether the window in front may be looked into, given the path of its program
/// in 16-bit units if there is such a window.
pub fn check_front(path: Option<&[u16]>, system_root: &str) -> (result: Result<(), FrontError>)
    ensures
        match result {
            Ok(()) => path is Some && exists|text: Seq<char>| #[trigger]
                text::utf16(text) == path->Some_0@ && is_prompt_process(
                    lowercase(text),
                    lowercase(system_root@),
                ),
            Err(FrontError::NoWindow) => path is None,
            Err(FrontError::NotText) => path is Some && forall|text: Seq<char>| #[trigger]
                text::utf16(text) != path->Some_0@,
            Err(FrontError::NoPrompt) => path is Some && exists|text: Seq<char>| #[trigger]
                text::utf16(text) == path->Some_0@ && !is_prompt_process(
                    lowercase(text),
                    lowercase(system_root@),
                ),
        },
{
    match path {
        None => Err(FrontError::NoWindow),
        Some(units) => match text_from_utf16(units) {
            None => Err(FrontError::NotText),
            Some(text) => {
                assert(text::utf16(text@) == units@);
                if trusted_prompt_process(text.as_str(), system_root) {
                    Ok(())
                } else {
                    Err(FrontError::NoPrompt)
                }
            },
        },
    }
}

/// How many elements a credential prompt may have.
pub const MAX_ELEMENTS: u32 = 256;

/// An element of a credential prompt, as far as it matters.
#[derive(Debug)]
pub struct PromptElement {
    pub same_process: bool,
    pub edit: bool,
    pub enabled: bool,
    pub offscreen: bool,
    pub password: bool,
    /// The automation id in lowercase.
    pub id: String,
    pub has_value: bool,
    pub read_only: bool,
}

impl PromptElement {
    /// Takes an element with the automation id that it reports.
    pub fn new(
        same_process: bool,
        edit: bool,
        enabled: bool,
        offscreen: bool,
        password: bool,
        automation_id: &str,
        has_value: bool,
        read_only: bool,
    ) -> (element: Self)
        ensures
            element.same_process == same_process,
            element.edit == edit,
            element.enabled == enabled,
            element.offscreen == offscreen,
            element.password == password,
            element.id@ == lowercase(automation_id@),
            element.has_value == has_value,
            element.read_only == read_only,
    {
        PromptElement {
            same_process,
            edit,
            enabled,
            offscreen,
            password,
            id: to_lowercase(automation_id),
            has_value,
            read_only,
        }
    }
}

/// Why a credential prompt is not filled in.
#[derive(Debug, Clone, Copy, PartialEq, Eq, Structural)]
pub enum FieldError {
    TooLarge,
    UnsupportedProvider,
    AmbiguousPassword,
    AmbiguousUsername,
    ReadOnlyPassword,
    NoValue,
    NoPassword,
}

impl FieldError {
    pub open spec fn text_of(self) -> Option<Seq<char>> {
        match self {
            FieldError::TooLarge => Some("Windows credential tree is too large to verify"@),
            FieldError::UnsupportedProvider => Some(
                "Unsupported password provider (or PIN selected)"@,
            ),
            FieldError::AmbiguousPassword => Some("Ambiguous Windows password fields"@),
            FieldError::AmbiguousUsername => Some("Ambiguous Windows username fields"@),
            FieldError::ReadOnlyPassword => Some("Password field is read-only"@),
            FieldError::NoValue => None,
            FieldError::NoPassword => Some("Select the Windows password sign-in option"@),
        }
    }

    /// What the viewer is told; for a field that takes no text, that is what
    /// Windows says of it.
    pub fn message(&self) -> (text: Option<&'static str>)
        ensures
            match self.text_of() {
                Some(message) => text is Some && text->Some_0@ == message,
                None => text is None,
            },
    {
        match self {
            FieldError::TooLarge => Some("Windows credential tree is too large to verify"),
            FieldError::UnsupportedProvider => Some(
                "Unsupported password provider (or PIN selected)",
            ),
            FieldError::AmbiguousPassword => Some("Ambiguous Windows password fields"),
            FieldError::AmbiguousUsername => Some("Ambiguous Windows username fields"),
            FieldError::ReadOnlyPassword => Some("Password field is read-only"),
            FieldError::NoValue => None,
            FieldError::NoPassword => Some("Select the Windows password sign-in option"),
        }
    }
}

/// The fields found so far, by their position among the elements.
#[derive(Debug, Clone, Copy, PartialEq, Eq, Structural)]
pub struct Fields {
    pub username: Option<usize>,
    pub password: Option<usize>,
}

/// Whether an element can take text at all.
pub open spec fn considered(element: PromptElement) -> bool {
    element.same_process && element.edit && element.enabled && !element.offscreen
}

/// The fields after one more element.
pub open spec fn fields_with(fields: Fields, element: PromptElement, position: usize) -> Result<
    Fields,
    FieldError,
> {
    if !considered(element) {
        Ok(fields)
    } else if element.password {
        if !is_password_id(element.id@) {
            Err(FieldError::UnsupportedProvider)
        } else if fields.password is Some {
            Err(FieldError::AmbiguousPassword)
        } else if !element.has_value {
            Err(FieldError::NoValue)
        } else if element.read_only {
            Err(FieldError::ReadOnlyPassword)
        } else {
            Ok(Fields { password: Some(position), ..fields })
        }
    } else if fields.username is Some {
        Err(FieldError::AmbiguousUsername)
    } else if !element.has_value {
        Err(FieldError::NoValue)
    } else {
        Ok(Fields { username: Some(position), ..fields })
    }
}

pub open spec fn fields_among(elements: Seq<PromptElement>) -> Result<Fields, FieldError>
    decreases elements.len(),
{
    if elements.len() == 0 {
        Ok(Fields { username: None, password: None })
    } else {
        match fields_among(elements.drop_last()) {
            Err(error) => Err(error),
            Ok(fields) => fields_with(fields, elements.last(), (elements.len() - 1) as usize),
        }
    }
}

fn consider(fields: Fields, element: &PromptElement, position: usize) -> (result: Result<
    Fields,
    FieldError,
>)
    ensures
        result == fields_with(fields, *element, position),
{
    if !element.same_process || !element.edit || !element.enabled || element.offscreen {
        return Ok(fields);
    }
    if element.password {
        if !password_id(element.id.as_str()) {
            return Err(FieldError::UnsupportedProvider);
        }
        if fields.password.is_some() {
            return Err(FieldError::AmbiguousPassword);
        }
        if !element.has_value {
            return Err(FieldError::NoValue);
        }
        if element.read_only {
            return Err(FieldError::ReadOnlyPassword);
        }
        Ok(Fields { username: fields.username, password: Some(position) })
    } else {
        if fields.username.is_some() {
            return Err(FieldError::AmbiguousUsername);
        }
        if !element.has_value {
            return Err(FieldError::NoValue);
        }
        Ok(Fields { username: Some(position), password: fields.password })
    }
}

proof fn lemma_field_error_stays(elements: Seq<PromptElement>, failed: int)
    requires
        0 <= failed <= elements.len(),
        fields_among(elements.take(failed)) is Err,
    ensures
        fields_among(elements) == fields_among(elements.take(failed)),
    decreases elements.len(),
{
    if failed < elements.len() {
        assert(elements.drop_last().take(failed) =~= elements.take(failed));
        lemma_field_error_stays(elements.drop_last(), failed);
    } else {
        assert(elements.take(failed) =~= elements);
    }
}

/// Finds the one password field of a credential prompt, and its user name field
/// if there is one; anything ambiguous or unknown is refused.
pub fn find_fields(elements: &Vec<PromptElement>) -> (result: Result<
    (Option<usize>, usize),
    FieldError,
>)
    ensures
        result == (if elements@.len() > MAX_ELEMENTS {
            Err::<(Option<usize>, usize), FieldError>(FieldError::TooLarge)
        } else {
            match fields_among(elements@) {
                Err(error) => Err(error),
                Ok(Fields { username, password: Some(password) }) => Ok((username, password)),
                Ok(Fields { password: None, .. }) => Err(FieldError::NoPassword),
            }
        }),
{
    if elements.len() > 256 {
        return Err(FieldError::TooLarge);
    }
    let mut fields = Fields { username: None, password: None };
    let mut next: usize = 0;
    while next < elements.len()
        invariant
            next <= elements@.len() <= MAX_ELEMENTS,
            fields_among(elements@.take(next as int)) == Ok::<Fields, FieldError>(fields),
        decreases elements@.len() - next,
    {
        assert(elements@.take(next + 1).drop_last() =~= elements@.take(next as int));
        match consider(fields, &elements[next], next) {
            Ok(found) => {
                fields = found;
            },
            Err(error) => {
                proof {
                    lemma_field_error_stays(elements@, next + 1);
                }
                return Err(error);
            },
        }
        next += 1;
    }
    assert(elements@.take(next as int) =~= elements@);
    match fields.password {
        Some(password) => Ok((fields.username, password)),
        None => Err(FieldError::NoPassword),
    }
}

proof fn lemma_fields_are_elements(elements: Seq<PromptElement>)
    requires
        elements.len() <= MAX_ELEMENTS,
        fields_among(elements) is Ok,
    ensures
        ({
            let fields = fields_among(elements)->Ok_0;
            &&& fields.password matches Some(at) ==> at < elements.len() && considered(
                elements[at as int],
            ) && elements[at as int].password && is_password_id(elements[at as int].id@)
                && !elements[at as int].read_only
            &&& fields.username matches Some(at) ==> at < elements.len() && considered(
                elements[at as int],
            ) && !elements[at as int].password
            &&& forall|i: int|
                0 <= i < elements.len() && considered(#[trigger] elements[i])
                    && elements[i].password ==> fields.password == Some(i as usize)
        }),
    decreases elements.len(),
{
    if elements.len() > 0 {
        lemma_fields_are_elements(elements.drop_last());
        let before = fields_among(elements.drop_last())->Ok_0;
        assert forall|i: int|
            0 <= i < elements.len() && considered(#[trigger] elements[i])
                && elements[i].password implies fields_among(elements)->Ok_0.password == Some(
            i as usize,
        ) by {
            if i < elements.len() - 1 {
                assert(elements.drop_last()[i] == elements[i]);
            }
        }
    }
}

/// A password is only ever given to the single visible, writable password field
/// that Windows itself names so, in the prompt's own process.
pub proof fn password_goes_to_the_only_password_field(elements: Seq<PromptElement>)
    requires
        elements.len() <= MAX_ELEMENTS,
        fields_among(elements) matches Ok(fields) && fields.password is Some,
    ensures
        ({
            let at = fields_among(elements)->Ok_0.password->Some_0 as int;
            &&& 0 <= at < elements.len()
            &&& considered(elements[at]) && elements[at].password && !elements[at].read_only
            &&& is_password_id(elements[at].id@)
            &&& forall|i: int|
                0 <= i < elements.len() && considered(#[trigger] elements[i])
                    && elements[i].password ==> i == at
        }),
{
    lemma_fields_are_elements(elements);
}

/// A credential dialog opens only outside the background, with a chat helper,
/// and one at a time; credentials are filled in only where some are saved, a
/// prompt waits for them, no dialog is open, and there is an input helper; and
/// they can be forgotten anywhere but while a dialog is open.
pub proof fn credential_commands_are_accepted_where_they_work(
    credentials: CredentialsView,
    command: CredentialCommand,
    background: bool,
    chat_routed: bool,
    input_routed: bool,
)
    ensures
        ({
            let outcome = command_outcome(
                credentials,
                command,
                background,
                chat_routed,
                input_routed,
            );
            &&& outcome == Ok::<CredentialAction, CredentialRefusal>(CredentialAction::SendPrompt)
                <==> command == CredentialCommand::Prompt && !background && chat_routed
                && !credentials.prompt_active
            &&& outcome == Ok::<CredentialAction, CredentialRefusal>(CredentialAction::LoadSaved)
                <==> command == CredentialCommand::Autofill && !background && input_routed
                && credentials.saved && credentials.can_autofill && !credentials.prompt_active
            &&& outcome == Ok::<CredentialAction, CredentialRefusal>(CredentialAction::DeleteSaved)
                <==> command == CredentialCommand::Forget && !credentials.prompt_active
            &&& background && command != CredentialCommand::Forget ==> outcome == Err::<
                CredentialAction,
                CredentialRefusal,
            >(CredentialRefusal::Background)
            &&& outcome == Err::<CredentialAction, CredentialRefusal>(
                CredentialRefusal::AlreadyOpen,
            ) ==> credentials.prompt_active && command == CredentialCommand::Prompt
            &&& outcome == Err::<CredentialAction, CredentialRefusal>(
                CredentialRefusal::DialogOpen,
            ) <==> credentials.prompt_active && command == CredentialCommand::Forget
            &&& outcome == Err::<CredentialAction, CredentialRefusal>(
                CredentialRefusal::NoChatHelper,
            ) ==> !chat_routed
            &&& outcome == Err::<CredentialAction, CredentialRefusal>(
                CredentialRefusal::NoInputHelper,
            ) ==> !input_routed
        }),
{
}

/// Only the two programs of Windows itself that show credential prompts are
/// trusted, and only where Windows keeps them: whatever else is under the system
/// directory, and either program anywhere else, is not.
pub proof fn only_windows_prompts_are_trusted(path: Seq<char>, system_root: Seq<char>)
    ensures
        is_prompt_process(path, system_root) ==> path.len() > system_root.len() && path.take(
            system_root.len() as int,
        ) == system_root,
        is_prompt_process(path, system_root) ==> path.skip(system_root.len() as int)
            == "\\system32\\logonui.exe"@ || path.skip(system_root.len() as int)
            == "\\system32\\consent.exe"@,
        is_prompt_process(system_root + "\\system32\\logonui.exe"@, system_root),
        is_prompt_process(system_root + "\\system32\\consent.exe"@, system_root),
{
    reveal_strlit("\\system32\\logonui.exe");
    reveal_strlit("\\system32\\consent.exe");
    let logon = "\\system32\\logonui.exe"@;
    let consent = "\\system32\\consent.exe"@;
    assert((system_root + logon).skip(system_root.len() as int) =~= logon);
    assert((system_root + consent).skip(system_root.len() as int) =~= consent);
    assert((system_root + logon).take(system_root.len() as int) =~= system_root);
    assert((system_root + consent).take(system_root.len() as int) =~= system_root);
}

/// A field of another name than Windows' own password fields gets no password:
/// a supported name is one of the two fixed ones, or the longer one with a number
/// of decimal digits behind it.
pub proof fn password_fields_are_windows_own(id: Seq<char>)
    ensures
        is_password_id(id) <==> id == "password"@ || id == "passwordfield"@ || exists|digits: Seq<
            char,
        >|
            id == #[trigger] ("passwordfield_"@ + digits) && digits.len() > 0 && forall|i: int|
                0 <= i < digits.len() ==> 48 <= #[trigger] digits[i] as int && digits[i] as int
                    <= 57,
{
    let prefix = "passwordfield_"@;
    if is_password_id(id) && id != "password"@ && id != "passwordfield"@ {
        let digits = id.skip(prefix.len() as int);
        assert(id =~= prefix + digits);
        assert forall|i: int| 0 <= i < digits.len() implies 48 <= #[trigger] digits[i] as int
            && digits[i] as int <= 57 by {
            assert(is_digit(id[i + prefix.len()]));
        }
    }
    if exists|digits: Seq<char>|
        id == #[trigger] (prefix + digits) && digits.len() > 0 && forall|i: int|
            0 <= i < digits.len() ==> 48 <= #[trigger] digits[i] as int && digits[i] as int <= 57 {
        let digits = choose|digits: Seq<char>|
            id == #[trigger] (prefix + digits) && digits.len() > 0 && forall|i: int|
                0 <= i < digits.len() ==> 48 <= #[trigger] digits[i] as int && digits[i] as int
                    <= 57;
        assert(id.take(prefix.len() as int) =~= prefix);
        assert forall|i: int| prefix.len() <= i < id.len() implies is_digit(#[trigger] id[i]) by {
            assert(digits[i - prefix.len()] == id[i]);
        }
    }
}

/// A user name is tried where it belongs: one with a backslash in the domain
/// before the first of them, one with an at sign as it is, and any other on this
/// computer.
pub proof fn accounts_belong_to_their_domain(domain: Seq<char>, name: Seq<char>)
    requires
        !domain.contains('\\'),
    ensures
        account_of(domain + seq!['\\'] + name) == (Some(domain), name),
        account_of(domain) == (if domain.contains('@') {
            (None::<Seq<char>>, domain)
        } else {
            (Some("."@), domain)
        }),
{
    let whole = domain + seq!['\\'] + name;
    lemma_first_of(whole, '\\', domain.len() as int);
    assert(whole.take(domain.len() as int) =~= domain);
    assert(whole.skip(domain.len() as int + 1) =~= name);
    lemma_first_of(domain, '\\', domain.len() as int);
    if domain.contains('@') {
        lemma_some_index(domain, '@');
    } else {
        lemma_first_of(domain, '@', domain.len() as int);
    }
}

proof fn lemma_first_of(text: Seq<char>, wanted: char, at: int)
    requires
        0 <= at <= text.len(),
        forall|i: int| 0 <= i < at ==> text[i] != wanted,
        at < text.len() ==> text[at] == wanted,
    ensures
        text::first_index(text, wanted) == (if at < text.len() {
            Some(at)
        } else {
            None
        }),
    decreases text.len(),
{
    if at > 0 {
        assert(text[0] != wanted);
        let rest = text.skip(1);
        assert forall|i: int| 0 <= i < at - 1 implies rest[i] != wanted by {
            assert(text[i + 1] != wanted);
        }
        lemma_first_of(rest, wanted, at - 1);
    }
}

proof fn lemma_some_index(text: Seq<char>, wanted: char)
    requires
        text.contains(wanted),
    ensures
        text::first_index(text, wanted) is Some,
    decreases text.len(),
{
    if text[0] != wanted {
        let at = choose|at: int| 0 <= at < text.len() && text[at] == wanted;
        assert(text.skip(1)[at - 1] == wanted);
        lemma_some_index(text.skip(1), wanted);
    }
}

/// A value ends before its terminator, whatever is behind that.
pub proof fn values_end_before_their_terminator(value: Seq<u16>, behind: Seq<u16>)
    requires
        forall|i: int| 0 <= i < value.len() ==> value[i] != 0,
    ensures
        terminated(value + seq![0u16] + behind) == value,
        terminated(value) == value,
{
    let whole = value + seq![0u16] + behind;
    assert forall|i: int| 0 <= i < value.len() implies whole[i] != 0 by {
        assert(whole[i] == value[i]);
    }
    lemma_terminated(whole, value.len() as int);
    assert(whole.take(value.len() as int) =~= value);
    lemma_terminated(value, value.len() as int);
    assert(value.take(value.len() as int) =~= value);
}

/// Protected credentials hold every unit, its low byte first, the user name's
/// before the password's.
pub proof fn units_are_laid_out_in_order(user: Seq<u16>, password: Seq<u16>, at: int)
    ensures
        unit_bytes(user + password).len() == 2 * user.len() + 2 * password.len(),
        0 <= at < user.len() ==> unit_bytes(user + password)[2 * at] + 256 * unit_bytes(
            user + password,
        )[2 * at + 1] == user[at],
        0 <= at < password.len() ==> unit_bytes(user + password)[2 * (user.len() + at)] + 256
            * unit_bytes(user + password)[2 * (user.len() + at) + 1] == password[at],
{
    if 0 <= at < password.len() {
        assert((user + password)[user.len() + at] == password[at]);
    }
}

/// Filling in gives the user name, where one is asked for, and then the password,
/// each up to its terminator and each once.
pub proof fn both_values_are_filled_in(user: Seq<u16>, password: Seq<u16>, asks_user: bool)
    requires
        forall|i: int| 0 <= i < user.len() ==> user[i] != 0,
        forall|i: int| 0 <= i < password.len() ==> password[i] != 0,
    ensures
        ({
            let steps = fill_views(user.push(0), password.push(0), asks_user);
            let values = steps.filter(|step: FillView| !(step is CheckFront));
            values == (if asks_user {
                seq![FillView::SetUsername(user), FillView::SetPassword(password)]
            } else {
                seq![FillView::SetPassword(password)]
            })
        }),
{
    values_end_before_their_terminator(user, seq![]);
    values_end_before_their_terminator(password, seq![]);
    assert(user + seq![0u16] + Seq::<u16>::empty() =~= user.push(0));
    assert(password + seq![0u16] + Seq::<u16>::empty() =~= password.push(0));
    let steps = fill_views(user.push(0), password.push(0), asks_user);
    let value = |step: FillView| !(step is CheckFront);
    reveal_with_fuel(Seq::filter, 5);
    let one = steps.drop_last();
    let two = one.drop_last();
    let three = two.drop_last();
    if asks_user {
        assert(three.drop_last() =~= seq![]);
        assert(steps.filter(value) =~= seq![
            FillView::SetUsername(user),
            FillView::SetPassword(password),
        ]);
    } else {
        assert(three =~= seq![]);
        assert(steps.filter(value) =~= seq![FillView::SetPassword(password)]);
    }
}

/// Only what the prompt itself shows and enables is filled in: a field of another
/// program, one that is hidden or disabled, and what is no field for text, are as
/// if they were not there; where fields are found, no other field of their kind
/// could have been meant.
pub proof fn only_the_prompts_fields_are_filled(elements: Seq<PromptElement>, at: int)
    requires
        elements.len() <= MAX_ELEMENTS,
        0 <= at < elements.len(),
        fields_among(elements) is Ok,
    ensures
        ({
            let fields = fields_among(elements)->Ok_0;
            let element = elements[at];
            let shown = element.same_process && element.edit && element.enabled
                && !element.offscreen;
            &&& fields.password == Some(at as usize) <==> shown && element.password
            &&& fields.username == Some(at as usize) <==> shown && !element.password
            &&& shown ==> element.has_value
            &&& shown && element.password ==> !element.read_only
        }),
    decreases elements.len(),
{
    let shorter = elements.drop_last();
    let before = fields_among(shorter)->Ok_0;
    lemma_positions(shorter);
    if at < shorter.len() {
        only_the_prompts_fields_are_filled(shorter, at);
        assert(shorter[at] == elements[at]);
    }
}

proof fn lemma_positions(elements: Seq<PromptElement>)
    requires
        elements.len() <= MAX_ELEMENTS,
        fields_among(elements) is Ok,
    ensures
        fields_among(elements)->Ok_0.password matches Some(at) ==> at < elements.len(),
        fields_among(elements)->Ok_0.username matches Some(at) ==> at < elements.len(),
    decreases elements.len(),
{
    if elements.len() > 0 {
        lemma_positions(elements.drop_last());
    }
}

/// A refused credential command says why, or what to do first.
pub proof fn refusals_say_what_to_do(refusal: CredentialRefusal)
    ensures
        refusal == CredentialRefusal::Background ==> refusal.text_of()
            == "Credentials are unavailable in background sessions"@,
        refusal == CredentialRefusal::NoChatHelper ==> refusal.text_of()
            == "Unlock Windows before requesting credentials"@,
        refusal == CredentialRefusal::AlreadyOpen ==> refusal.text_of()
            == "A credential request is already open"@,
        refusal == CredentialRefusal::NothingToFill ==> refusal.text_of()
            == "No saved credentials or Windows password prompt"@,
        refusal == CredentialRefusal::NoInputHelper ==> refusal.text_of()
            == "Windows desktop is switching; try again"@,
        refusal == CredentialRefusal::NothingSaved ==> refusal.text_of() == "No saved credentials"@,
        refusal == CredentialRefusal::DialogOpen ==> refusal.text_of()
            == "Close the credential dialog before forgetting credentials"@,
        refusal == CredentialRefusal::Invalid ==> refusal.text_of()
            == "Invalid credential command"@,
{
}

/// What was typed into the dialog is refused for what it is.
pub proof fn prompt_refusals_say_why(refusal: PromptRefusal)
    ensures
        refusal == PromptRefusal::NoPassword ==> refusal.text_of()
            == "A Windows password is required; PINs and empty passwords are not supported"@,
        refusal == PromptRefusal::NotText ==> refusal.text_of()
            == "invalid utf-16: lone surrogate found"@,
{
}

/// Protected credentials that cannot be read say what is wrong with them.
pub proof fn data_errors_say_what_is_wrong(error: CredentialDataError)
    ensures
        error == CredentialDataError::Length ==> error.text_of()
            == "Invalid protected credential data"@,
        error == CredentialDataError::Terminators ==> error.text_of()
            == "Invalid credential terminators"@,
{
}

/// What is in front and no prompt is told for what it is.
pub proof fn front_errors_say_what_is_missing(error: FrontError)
    ensures
        error == FrontError::NoWindow ==> error.text_of() == "No foreground Windows prompt"@,
        error == FrontError::NotText ==> error.text_of() == "invalid utf-16: lone surrogate found"@,
        error == FrontError::NoPrompt ==> error.text_of()
            == "The foreground window is not a Windows credential prompt"@,
{
}

/// Fields that are not filled in say why; only what Windows itself refuses has no
/// words here.
pub proof fn field_errors_say_what_is_wrong(error: FieldError)
    ensures
        error == FieldError::TooLarge ==> error.text_of()
            == Some("Windows credential tree is too large to verify"@),
        error == FieldError::UnsupportedProvider ==> error.text_of()
            == Some("Unsupported password provider (or PIN selected)"@),
        error == FieldError::AmbiguousPassword ==> error.text_of()
            == Some("Ambiguous Windows password fields"@),
        error == FieldError::AmbiguousUsername ==> error.text_of()
            == Some("Ambiguous Windows username fields"@),
        error == FieldError::ReadOnlyPassword ==> error.text_of()
            == Some("Password field is read-only"@),
        error == FieldError::NoValue ==> error.text_of() is None,
        error == FieldError::NoPassword ==> error.text_of()
            == Some("Select the Windows password sign-in option"@),
{
}

} // verus!
