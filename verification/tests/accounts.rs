use cafehub::account::{
    ask_about_username, check_password_change, check_registration, check_update,
    clear_password_change, hash_password,
    decide_login, finish_hashing, finish_password_change, finish_registration, finish_update,
    is_valid_gender,
    is_valid_phone, login, new_account, plan_update, prepare_password_change,
    prepare_registration, username_changes, verify_password, LoginError, PasswordError, Patch,
    RegistrationError, RegistrationOutcome, StoredAccount, UpdateError, UpdateOutcome,
};
use cafehub::models::{Account, RegistrationData, UpdatePasswordData, UpdateUserData};
use cafehub::store::WriteResult;

const HASH_OF_PASSWORD: &str = "$2a$04$UuTkLRZZ6QofpDOlMz32MuuxEHA43WOemOYHPz6.SjsVsyO1tDU96";

fn registration(username: &str, password: &str, phone: Option<&str>, gender: Option<i8>) -> RegistrationData {
    RegistrationData {
        username: username.to_string(),
        password: password.to_string(),
        phone: phone.map(|p| p.to_string()),
        gender,
    }
}

fn stored(hash: &str) -> StoredAccount {
    StoredAccount {
        account: Account {
            id: 7,
            username: "ann".to_string(),
            phone: None,
            gender: Some(1),
            join_time: None,
            balance: None,
            user_type: 1,
        },
        password_hash: hash.to_string(),
    }
}

#[test]
fn phone_is_eleven_digits() {
    assert!(is_valid_phone("13800138000"));
    assert!(is_valid_phone("00000000000"));
    assert!(!is_valid_phone(""));
    assert!(!is_valid_phone("1380013800"));
    assert!(!is_valid_phone("138001380001"));
    assert!(!is_valid_phone("1380013800a"));
    assert!(!is_valid_phone("+3800138000"));
    assert!(!is_valid_phone("1380013800\u{0663}"));
    assert!(!is_valid_phone("１３８００１３８０００"));
}

#[test]
fn gender_is_zero_or_one() {
    assert!(is_valid_gender(0));
    assert!(is_valid_gender(1));
    assert!(!is_valid_gender(2));
    assert!(!is_valid_gender(-1));
}

#[test]
fn registration_checks_in_order() {
    assert_eq!(
        check_registration(&registration("", "pw", Some("1"), Some(9))),
        Some(Err(RegistrationError::EmptyCredentials))
    );
    assert_eq!(
        check_registration(&registration("ann", "", None, None)),
        Some(Err(RegistrationError::EmptyCredentials))
    );
    assert_eq!(
        check_registration(&registration("ann", "pw", Some("1"), Some(9))),
        Some(Ok(RegistrationOutcome::InvalidGender))
    );
    assert_eq!(
        check_registration(&registration("ann", "pw", Some("1"), Some(0))),
        Some(Ok(RegistrationOutcome::InvalidPhone))
    );
    assert_eq!(check_registration(&registration("ann", "pw", Some("13800138000"), Some(0))), None);
    assert_eq!(check_registration(&registration("ann", "pw", None, None)), None);
}

#[test]
fn registration_codes_are_the_ones_callers_know() {
    assert_eq!(RegistrationOutcome::Registered.code(), 1);
    assert_eq!(RegistrationOutcome::UsernameTaken.code(), 2);
    assert_eq!(RegistrationOutcome::InvalidPhone.code(), 3);
    assert_eq!(RegistrationOutcome::InvalidGender.code(), 4);
}

#[test]
fn new_account_starts_as_a_customer_with_nothing() {
    let data = registration("ann", "pw", Some("13800138000"), Some(1));
    let row = new_account(&data, Some("hash".to_string())).ok().unwrap();
    assert_eq!(row.username, "ann");
    assert_eq!(row.password_hash, "hash");
    assert_eq!(row.phone, Some("13800138000".to_string()));
    assert_eq!(row.gender, Some(1));
    assert_eq!(row.balance.mantissa(), 0);
    assert_eq!(row.balance.scale(), 2);
    assert_eq!(row.user_type, 1);
    assert_eq!(
        new_account(&data, None).err(),
        Some(Err(RegistrationError::HashingFailed))
    );
    assert_eq!(
        new_account(&registration("ann", "pw", None, Some(5)), Some("hash".to_string())).err(),
        Some(Ok(RegistrationOutcome::InvalidGender))
    );
}

#[test]
fn registration_stores_a_hash_that_the_password_verifies_against() {
    let data = registration("ann", "open sesame", None, None);
    let row = prepare_registration(&data).ok().unwrap();
    assert_ne!(row.password_hash, "open sesame");
    assert_eq!(verify_password("open sesame", Some(row.password_hash.as_str())), Some(true));
    assert_eq!(verify_password("open sesam", Some(row.password_hash.as_str())), Some(false));
    assert_eq!(
        prepare_registration(&registration("", "pw", None, None)).err(),
        Some(Err(RegistrationError::EmptyCredentials))
    );
}

#[test]
fn registration_outcomes() {
    assert_eq!(
        finish_registration(WriteResult::Written { rows: 1 }),
        Ok(RegistrationOutcome::Registered)
    );
    assert_eq!(
        finish_registration(WriteResult::UniqueViolation),
        Ok(RegistrationOutcome::UsernameTaken)
    );
    assert_eq!(finish_registration(WriteResult::Failed), Err(RegistrationError::StoreFailure));
}

#[test]
fn password_is_held_against_the_stored_hash() {
    assert_eq!(verify_password("password", Some(HASH_OF_PASSWORD)), Some(true));
    assert_eq!(verify_password("passwore", Some(HASH_OF_PASSWORD)), Some(false));
    assert_eq!(verify_password("password", Some("password")), None);
    assert_eq!(verify_password("password", None), None);
}

#[test]
fn login_with_the_right_password_gives_the_account() {
    let account = login(Some(stored(HASH_OF_PASSWORD)), "password").ok().unwrap();
    assert_eq!(account.id, 7);
    assert_eq!(account.username, "ann");
    assert_eq!(account.user_type, 1);
}

#[test]
fn login_is_turned_away() {
    assert_eq!(
        login(Some(stored(HASH_OF_PASSWORD)), "wrong").err(),
        Some(LoginError::InvalidCredentials)
    );
    assert_eq!(login(None, "password").err(), Some(LoginError::InvalidCredentials));
    assert_eq!(
        login(Some(stored("not a hash")), "password").err(),
        Some(LoginError::VerificationFailed)
    );
    assert_eq!(
        decide_login(Some(stored("x")), Some(false)).err(),
        Some(LoginError::InvalidCredentials)
    );
    assert_eq!(decide_login(None, Some(true)).err(), Some(LoginError::InvalidCredentials));
}

fn passwords(current: &str, new: &str) -> UpdatePasswordData {
    UpdatePasswordData { current_password: current.to_string(), new_password: new.to_string() }
}

#[test]
fn password_change_checks_in_order() {
    assert_eq!(
        check_password_change(&passwords("", "")),
        Some(PasswordError::EmptyNewPassword)
    );
    assert_eq!(
        check_password_change(&passwords("", "new")),
        Some(PasswordError::EmptyCurrentPassword)
    );
    assert_eq!(check_password_change(&passwords("old", "new")), None);
}

#[test]
fn password_change_needs_the_account_and_its_password() {
    assert_eq!(
        clear_password_change(7, false, None),
        Err(PasswordError::AccountNotFound { user_id: 7 })
    );
    assert_eq!(clear_password_change(7, true, None), Err(PasswordError::VerificationFailed));
    assert_eq!(
        clear_password_change(7, true, Some(false)),
        Err(PasswordError::IncorrectPassword)
    );
    assert_eq!(clear_password_change(7, true, Some(true)), Ok(()));
}

#[test]
fn password_change_hashes_the_new_password() {
    let data = passwords("password", "new secret");
    let hash = prepare_password_change(7, &data, Some(HASH_OF_PASSWORD)).unwrap();
    assert_eq!(verify_password("new secret", Some(hash.as_str())), Some(true));
    assert_eq!(verify_password("password", Some(hash.as_str())), Some(false));
    assert_eq!(
        prepare_password_change(7, &passwords("wrong", "new secret"), Some(HASH_OF_PASSWORD)),
        Err(PasswordError::IncorrectPassword)
    );
    assert_eq!(
        prepare_password_change(7, &data, None),
        Err(PasswordError::AccountNotFound { user_id: 7 })
    );
    assert_eq!(
        prepare_password_change(7, &data, Some("garbage")),
        Err(PasswordError::VerificationFailed)
    );
}

#[test]
fn a_hash_that_could_not_be_made_is_a_failure() {
    assert_eq!(finish_hashing(Some("hash".to_string())), Ok("hash".to_string()));
    assert_eq!(finish_hashing(None), Err(PasswordError::HashingFailed));
}

#[test]
fn password_change_outcomes() {
    assert_eq!(finish_password_change(WriteResult::Written { rows: 1 }), Ok(()));
    assert_eq!(
        finish_password_change(WriteResult::Written { rows: 0 }),
        Err(PasswordError::NothingUpdated)
    );
    assert_eq!(finish_password_change(WriteResult::Failed), Err(PasswordError::StoreFailure));
}

fn update(username: Option<&str>, phone: Option<&str>, gender: Option<i8>) -> UpdateUserData {
    UpdateUserData {
        username: username.map(|u| u.to_string()),
        phone: phone.map(|p| p.to_string()),
        gender,
    }
}

#[test]
fn the_store_is_asked_about_a_username_only_where_one_is_given() {
    assert_eq!(ask_about_username(&update(None, Some("x"), None)), Ok(false));
    assert_eq!(ask_about_username(&update(Some("ann"), None, None)), Ok(true));
    assert_eq!(
        ask_about_username(&update(Some(""), None, None)),
        Err(UpdateError::EmptyUsername)
    );
}

#[test]
fn usernames_are_compared_letter_for_letter() {
    assert!(!username_changes(Some("ann"), "ann"));
    assert!(username_changes(Some("ann"), "Ann"));
    assert!(username_changes(Some("ann"), "anna"));
    assert!(username_changes(Some("anna"), "ann"));
    assert!(username_changes(None, "ann"));
}

#[test]
fn update_writes_only_what_was_asked_for() {
    let patch = plan_update(&update(Some("ann"), Some("13800138000"), Some(0)), true, false)
        .ok()
        .unwrap();
    assert!(matches!(&patch.username, Patch::Put(name) if name == "ann"));
    assert!(matches!(&patch.phone, Patch::Put(phone) if phone == "13800138000"));
    assert!(matches!(patch.gender, Patch::Put(0)));
    assert!(!patch.nothing_to_write());

    let patch = plan_update(&update(None, Some(""), None), false, false).ok().unwrap();
    assert!(matches!(patch.username, Patch::Keep));
    assert!(matches!(patch.phone, Patch::Clear));
    assert!(matches!(patch.gender, Patch::Keep));
    assert!(!patch.nothing_to_write());

    let patch = plan_update(&update(Some("ann"), None, Some(1)), false, true).ok().unwrap();
    assert!(matches!(patch.username, Patch::Keep));
    assert!(matches!(patch.gender, Patch::Put(1)));
}

#[test]
fn an_update_with_nothing_to_write_changes_nothing() {
    assert_eq!(
        plan_update(&update(Some("ann"), None, None), false, true).err(),
        Some(Ok(UpdateOutcome::NoChange))
    );
    assert_eq!(
        plan_update(&update(None, None, None), true, true).err(),
        Some(Ok(UpdateOutcome::NoChange))
    );
}

#[test]
fn update_data_is_checked_without_the_store() {
    assert_eq!(
        check_update(&update(Some(""), Some("1"), Some(9))),
        Some(Err(UpdateError::EmptyUsername))
    );
    assert_eq!(
        check_update(&update(Some("ann"), Some("1"), Some(9))),
        Some(Ok(UpdateOutcome::InvalidPhone))
    );
    assert_eq!(
        check_update(&update(Some("ann"), Some("13800138000"), Some(9))),
        Some(Ok(UpdateOutcome::InvalidGender))
    );
    assert_eq!(check_update(&update(Some("ann"), Some(""), Some(9))), Some(Ok(UpdateOutcome::InvalidGender)));
    assert_eq!(check_update(&update(Some("ann"), Some(""), Some(1))), None);
    assert_eq!(check_update(&update(None, None, None)), None);
}

#[test]
fn update_is_turned_away_in_order() {
    assert_eq!(
        plan_update(&update(Some(""), Some("1"), Some(9)), true, true).err(),
        Some(Err(UpdateError::EmptyUsername))
    );
    assert_eq!(
        plan_update(&update(Some("ann"), Some("1"), Some(9)), true, true).err(),
        Some(Ok(UpdateOutcome::InvalidPhone))
    );
    assert_eq!(
        plan_update(&update(Some("ann"), Some("13800138000"), Some(9)), true, true).err(),
        Some(Ok(UpdateOutcome::InvalidGender))
    );
    assert_eq!(
        plan_update(&update(Some("ann"), Some("13800138000"), Some(1)), true, true).err(),
        Some(Ok(UpdateOutcome::UsernameTaken))
    );
    assert_eq!(
        plan_update(&update(None, Some("13800138000"), Some(9)), false, false).err(),
        Some(Ok(UpdateOutcome::InvalidGender))
    );
}

#[test]
fn a_hash_is_one_that_the_password_verifies_against() {
    let hash = hash_password("open sesame").unwrap();
    assert_ne!(hash, "open sesame");
    assert_eq!(verify_password("open sesame", Some(hash.as_str())), Some(true));
    assert_eq!(verify_password("open sesam", Some(hash.as_str())), Some(false));
}

#[test]
fn password_change_refuses_empty_passwords_itself() {
    assert_eq!(
        prepare_password_change(7, &passwords("password", ""), Some(HASH_OF_PASSWORD)),
        Err(PasswordError::EmptyNewPassword)
    );
    assert_eq!(
        prepare_password_change(7, &passwords("", "new"), Some(HASH_OF_PASSWORD)),
        Err(PasswordError::EmptyCurrentPassword)
    );
    assert_eq!(
        prepare_password_change(7, &passwords("", ""), None),
        Err(PasswordError::EmptyNewPassword)
    );
}

#[test]
fn update_outcomes() {
    assert_eq!(finish_update(WriteResult::Written { rows: 1 }), Ok(UpdateOutcome::Updated));
    assert_eq!(finish_update(WriteResult::Written { rows: 0 }), Ok(UpdateOutcome::NoChange));
    assert_eq!(finish_update(WriteResult::UniqueViolation), Ok(UpdateOutcome::UsernameTaken));
    assert_eq!(finish_update(WriteResult::Failed), Err(UpdateError::StoreFailure));
}
