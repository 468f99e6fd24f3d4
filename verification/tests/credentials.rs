use meshrmm_agent::credentials::{
    check_front, credential_command, credential_state, end, fill, find_fields, forgotten,
    plain_credentials, prompt, prompt_in_front, prompt_sent, saved_loaded, split_account, split_credentials,
    supported_password_id, trusted_prompt_process, CredentialAction, CredentialCommand,
    CredentialDataError, CredentialRefusal, FieldError, FillStep, FrontError, PromptElement, PromptRefusal,
    PASSWORD_UNITS, USER_UNITS,
};
use meshrmm_agent::dispatch::Shared;

#[test]
fn only_windows_password_prompts_are_allowed() {
    assert!(trusted_prompt_process(
        r"C:\WINDOWS\System32\LogonUI.exe",
        r"C:\Windows"
    ));
    assert!(trusted_prompt_process(
        r"C:\Windows\system32\consent.exe",
        r"C:\Windows"
    ));
    for path in [
        r"C:\Users\Public\consent.exe",
        r"C:\Windows\System32\consent.exe.fake",
        r"C:\Windows\System32\notepad.exe",
    ] {
        assert!(!trusted_prompt_process(path, r"C:\Windows"));
    }
    for id in ["Password", "PasswordField", "PasswordField_2"] {
        assert!(supported_password_id(id));
    }
    for id in [
        "",
        "PINField",
        "PasswordFieldPin",
        "PasswordField_",
        "PasswordField_otp",
    ] {
        assert!(!supported_password_id(id));
    }
}

fn buffers(user: &str, password: &str) -> (Vec<u16>, Vec<u16>) {
    let mut user: Vec<u16> = user.encode_utf16().collect();
    user.resize(USER_UNITS, 0);
    let mut password: Vec<u16> = password.encode_utf16().collect();
    password.resize(PASSWORD_UNITS, 0);
    (user, password)
}

#[test]
fn accounts_are_split_by_their_domain() {
    for (name, domain, account) in [
        (r"ACME\zoë", Some("ACME"), "zoë"),
        (r".\local", Some("."), "local"),
        ("zoë@acme.example", None, "zoë@acme.example"),
        ("zoë", Some("."), "zoë"),
        (r"A\b\c@d", Some("A"), r"b\c@d"),
    ] {
        let (user, password) = buffers(name, "secret");
        let attempt = prompt(&user, &password).unwrap();
        assert_eq!(attempt.username, name);
        assert_eq!(attempt.account.domain.as_deref(), domain);
        assert_eq!(attempt.account.name, account);
        assert_eq!(split_account(name).name, account);
    }
}

#[test]
fn incomplete_credentials_are_not_tried() {
    let (user, password) = buffers("zoë", "");
    let refusal = prompt(&user, &password).unwrap_err();
    assert_eq!(refusal, PromptRefusal::NoPassword);
    assert!(refusal.message().contains("password is required"));
    let (mut user, password) = buffers("zoë", "secret");
    user[1] = 0xd800;
    let refusal = prompt(&user, &password).unwrap_err();
    assert_eq!(refusal, PromptRefusal::NotText);
    assert_eq!(
        refusal.message(),
        String::from_utf16(&[0xd800]).unwrap_err().to_string()
    );
}

#[test]
fn protected_credentials_are_found_again() {
    let (user, password) = buffers("zoë", "s\u{1f511}");
    let plain = plain_credentials(&user, &password);
    assert_eq!(plain.len(), 1542);
    assert_eq!(&plain[..6], &[b'z', 0, b'o', 0, 0xeb, 0]);
    assert_eq!(
        split_credentials(&plain),
        Ok((user.clone(), password.clone()))
    );
    assert_eq!(end(&user), 3);
    assert_eq!(end(&[1, 2]), 2);

    for asks_user in [false, true] {
        let mut looked = false;
        let mut values = Vec::new();
        for mut step in fill(&plain, asks_user).unwrap() {
            match &step {
                FillStep::CheckFront => looked = true,
                FillStep::SetUsername(units) | FillStep::SetPassword(units) => {
                    assert!(looked);
                    looked = false;
                    values.push(String::from_utf16(units).unwrap());
                }
            }
            step.wipe();
            assert!(match step {
                FillStep::CheckFront => true,
                FillStep::SetUsername(units) | FillStep::SetPassword(units) => units.is_empty(),
            });
        }
        let expected = if asks_user {
            vec!["zoë", "s\u{1f511}"]
        } else {
            vec!["s\u{1f511}"]
        };
        assert_eq!(values, expected);
    }
    assert_eq!(prompt_in_front(true), Ok(()));
    assert_eq!(
        prompt_in_front(false),
        Err("Windows prompt changed; try again")
    );
}

#[test]
fn damaged_credentials_are_refused() {
    let (user, password) = buffers("zoë", "secret");
    let mut plain = plain_credentials(&user, &password);
    assert_eq!(
        split_credentials(&plain[1..]),
        Err(CredentialDataError::Length)
    );
    plain[1541] = 1;
    assert_eq!(
        split_credentials(&plain),
        Err(CredentialDataError::Terminators)
    );
    assert_eq!(
        fill(&plain, true).unwrap_err().message(),
        "Invalid credential terminators"
    );
    assert_eq!(
        CredentialDataError::Length.message(),
        "Invalid protected credential data"
    );
}

fn field(password: bool, id: &str) -> PromptElement {
    PromptElement::new(true, true, true, false, password, id, true, false)
}

#[test]
fn only_one_known_password_field_is_filled() {
    assert_eq!(
        find_fields(&vec![field(false, "User"), field(true, "PasswordField_0")]),
        Ok((Some(0), 1))
    );
    let hidden = PromptElement::new(true, true, true, true, true, "PINField", true, false);
    let foreign = PromptElement::new(false, true, true, false, true, "PINField", true, false);
    assert_eq!(
        find_fields(&vec![hidden, foreign, field(true, "PASSWORD")]),
        Ok((None, 2))
    );
    for (elements, error) in [
        (
            vec![field(true, "PINField")],
            FieldError::UnsupportedProvider,
        ),
        (
            vec![field(true, "Password"), field(true, "Password")],
            FieldError::AmbiguousPassword,
        ),
        (
            vec![field(false, "a"), field(false, "b")],
            FieldError::AmbiguousUsername,
        ),
        (vec![field(false, "a")], FieldError::NoPassword),
        (
            vec![PromptElement::new(
                true, true, true, false, true, "Password", true, true,
            )],
            FieldError::ReadOnlyPassword,
        ),
        (
            vec![PromptElement::new(
                true, true, true, false, true, "Password", false, false,
            )],
            FieldError::NoValue,
        ),
        (
            (0..257).map(|_| field(true, "Password")).collect(),
            FieldError::TooLarge,
        ),
    ] {
        assert_eq!(find_fields(&elements), Err(error));
        assert_eq!(error.message().is_none(), error == FieldError::NoValue);
    }
}

#[test]
fn credential_commands_are_accepted_where_they_can_work() {
    let mut shared = Shared::new(true, vec![0]);
    let refused = |shared: &mut Shared, command, background, chat, input| {
        credential_command(shared, command, background, chat, input).unwrap_err()
    };
    assert_eq!(
        refused(&mut shared, CredentialCommand::Prompt, true, true, true),
        CredentialRefusal::Background
    );
    assert_eq!(
        refused(&mut shared, CredentialCommand::Prompt, false, false, true),
        CredentialRefusal::NoChatHelper
    );
    assert_eq!(
        refused(&mut shared, CredentialCommand::Autofill, false, true, true),
        CredentialRefusal::NothingToFill
    );
    shared.credentials.can_autofill = true;
    assert!(credential_state(&shared, false).can_autofill);
    assert!(!credential_state(&shared, true).can_autofill);
    assert!(!credential_state(&shared, true).available);
    assert_eq!(
        refused(&mut shared, CredentialCommand::Autofill, false, true, false),
        CredentialRefusal::NoInputHelper
    );
    assert_eq!(
        credential_command(&mut shared, CredentialCommand::Autofill, false, true, true),
        Ok(CredentialAction::LoadSaved)
    );
    assert_eq!(
        refused(&mut shared, CredentialCommand::Other, false, true, true),
        CredentialRefusal::Invalid
    );
    assert_eq!(
        credential_command(&mut shared, CredentialCommand::Prompt, false, true, true),
        Ok(CredentialAction::SendPrompt)
    );
    assert_eq!(
        credential_state(&shared, false).message,
        "Waiting for the remote user…"
    );
    assert_eq!(
        refused(&mut shared, CredentialCommand::Prompt, false, true, true),
        CredentialRefusal::AlreadyOpen
    );
    assert_eq!(
        refused(&mut shared, CredentialCommand::Forget, true, true, true),
        CredentialRefusal::DialogOpen
    );
    prompt_sent(&mut shared, false);
    assert_eq!(
        credential_command(&mut shared, CredentialCommand::Forget, true, false, false),
        Ok(CredentialAction::DeleteSaved)
    );
    forgotten(&mut shared);
    assert_eq!(
        credential_state(&shared, false).message,
        "Saved credentials cleared"
    );
    let mut shared = Shared::new(true, vec![0]);
    assert_eq!(saved_loaded(&mut shared, true), Ok(()));
    assert!(shared.credentials.saved);
    assert_eq!(
        saved_loaded(&mut shared, false),
        Err(CredentialRefusal::NothingSaved)
    );
    assert!(!shared.credentials.saved);
    assert_eq!(
        CredentialRefusal::NothingSaved.text(),
        "No saved credentials"
    );
}

#[test]
fn only_credential_prompts_in_front_are_looked_into() {
    let units = |path: &str| path.encode_utf16().collect::<Vec<u16>>();
    assert_eq!(
        check_front(None, r"C:\Windows").unwrap_err().message(),
        "No foreground Windows prompt"
    );
    assert_eq!(
        check_front(
            Some(&units(r"C:\WINDOWS\System32\Consent.exe")),
            r"C:\Windows"
        ),
        Ok(())
    );
    assert_eq!(
        check_front(
            Some(&units(r"C:\Windows\System32\notepad.exe")),
            r"C:\Windows"
        )
        .unwrap_err()
        .message(),
        "The foreground window is not a Windows credential prompt"
    );
    assert_eq!(
        check_front(Some(&[0xd800]), r"C:\Windows"),
        Err(FrontError::NotText)
    );
}
