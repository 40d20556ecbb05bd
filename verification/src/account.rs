use crate::amount::Amount;
use crate::models::{
    Account, RegistrationData, UpdatePasswordData, UpdateUserData, GENDER_FEMALE, GENDER_MALE,
    ROLE_CUSTOMER,
};
use crate::store::WriteResult;
use vstd::prelude::*;
use vstd::string::StrSliceExecFns;

verus! {

/// The error type of the `bcrypt` crate. Nothing is read from it: every error is
/// told from success and from nothing else.
#[verifier::external_type_specification]
#[verifier::external_body]
pub struct ExBcryptError(bcrypt::BcryptError);

/// What `bcrypt::verify` finds for a password and a stored hash: whether the
/// password is the one that was hashed, or nothing where the hash cannot be read.
pub uninterp spec fn bcrypt_verdict(password: Seq<char>, hash: Seq<char>) -> Option<bool>;

/// Calls `bcrypt::verify`, which reads cost and salt from the stored hash, hashes
/// the password with them and compares. The answer depends on the two strings
/// alone; it is the one that [`bcrypt_verdict`] names, an error standing for none.
#[verifier::external_body]
fn bcrypt_verify(password: &str, hash: &str) -> (r: Result<bool, bcrypt::BcryptError>)
    ensures
        match r {
            Ok(matches) => bcrypt_verdict(password@, hash@) == Some(matches),
            Err(_) => bcrypt_verdict(password@, hash@) is None,
        },
{
    bcrypt::verify(password, hash)
}

/// Calls `bcrypt::hash` with `bcrypt::DEFAULT_COST`. The salt is drawn at random,
/// so the hash is not said; but it carries its cost and salt, and `bcrypt::verify`
/// hashes the same password with them to the same bytes: the password verifies
/// against every hash that comes back.
#[verifier::external_body]
fn bcrypt_hash(password: &str) -> (r: Result<String, bcrypt::BcryptError>)
    ensures
        match r {
            Ok(hash) => bcrypt_verdict(password@, hash@) == Some(true),
            Err(_) => true,
        },
{
    bcrypt::hash(password, bcrypt::DEFAULT_COST)
}

/// Hashes a password for storing. There is no hash where the random source for
/// the salt fails; a hash that there is is one that the password verifies against.
pub fn hash_password(password: &str) -> (r: Option<String>)
    ensures
        r matches Some(hash) ==> bcrypt_verdict(password@, hash@) == Some(true),
{
    match bcrypt_hash(password) {
        Ok(hash) => Some(hash),
        Err(_) => None,
    }
}

/// One of the ten decimal digits.
pub open spec fn is_digit(c: char) -> bool {
    '0' <= c <= '9'
}

/// A phone number is eleven decimal digits.
pub open spec fn valid_phone(phone: Seq<char>) -> bool {
    phone.len() == 11 && forall|i: int| 0 <= i < phone.len() ==> is_digit(#[trigger] phone[i])
}

/// A gender is recorded as one of two numbers.
pub open spec fn valid_gender(gender: i8) -> bool {
    gender == GENDER_MALE || gender == GENDER_FEMALE
}

/// Whether the text is a phone number: eleven decimal digits and nothing else.
pub fn is_valid_phone(phone: &str) -> (r: bool)
    ensures
        r == valid_phone(phone@),
{
    if phone.unicode_len() != 11 {
        return false;
    }
    let mut i: usize = 0;
    while i < 11
        invariant
            i <= 11,
            phone@.len() == 11,
            forall|j: int| 0 <= j < i ==> is_digit(#[trigger] phone@[j]),
        decreases 11 - i,
    {
        let c = phone.get_char(i);
        if !('0' <= c && c <= '9') {
            assert(!is_digit(phone@[i as int]));
            return false;
        }
        i = i + 1;
    }
    true
}

/// Whether the number stands for a gender.
pub fn is_valid_gender(gender: i8) -> (r: bool)
    ensures
        r == valid_gender(gender),
{
    gender == GENDER_MALE || gender == GENDER_FEMALE
}

/// How a registration ended, as far as the rules decide it.
#[derive(Clone, Copy, Debug, PartialEq, Eq, Structural)]
pub enum RegistrationOutcome {
    Registered,
    UsernameTaken,
    InvalidPhone,
    InvalidGender,
}

impl RegistrationOutcome {
    /// The number under which callers know the outcome.
    pub open spec fn spec_code(self) -> i32 {
        match self {
            RegistrationOutcome::Registered => 1,
            RegistrationOutcome::UsernameTaken => 2,
            RegistrationOutcome::InvalidPhone => 3,
            RegistrationOutcome::InvalidGender => 4,
        }
    }

    /// The number under which callers know the outcome.
    #[verifier::when_used_as_spec(spec_code)]
    pub fn code(self) -> (r: i32)
        ensures
            r == self.spec_code(),
    {
        match self {
            RegistrationOutcome::Registered => 1,
            RegistrationOutcome::UsernameTaken => 2,
            RegistrationOutcome::InvalidPhone => 3,
            RegistrationOutcome::InvalidGender => 4,
        }
    }
}

/// Why a registration was given up.
#[derive(Clone, Copy, Debug, PartialEq, Eq, Structural)]
pub enum RegistrationError {
    /// Username or password is empty.
    EmptyCredentials,
    /// The password could not be hashed.
    HashingFailed,
    /// The store reported a failure.
    StoreFailure,
}

/// How a registration ended.
pub type RegistrationResult = Result<RegistrationOutcome, RegistrationError>;

/// The account row that a registration creates. The store adds the day.
pub struct NewAccount {
    pub username: String,
    pub password_hash: String,
    pub phone: Option<String>,
    pub gender: Option<i8>,
    pub balance: Amount,
    pub user_type: i8,
}

/// What is wrong with the data of a registration, if anything: empty credentials
/// first, then the gender, then the phone number.
pub open spec fn registration_fault(data: RegistrationData) -> Option<RegistrationResult> {
    if data.username@.len() == 0 || data.password@.len() == 0 {
        Some(Err(RegistrationError::EmptyCredentials))
    } else if data.gender matches Some(gender) && !valid_gender(gender) {
        Some(Ok(RegistrationOutcome::InvalidGender))
    } else if data.phone matches Some(phone) && !valid_phone(phone@) {
        Some(Ok(RegistrationOutcome::InvalidPhone))
    } else {
        None
    }
}

/// Checks the data of a registration before anything is asked of the store.
pub fn check_registration(data: &RegistrationData) -> (r: Option<RegistrationResult>)
    ensures
        r == registration_fault(*data),
{
    if data.username.as_str().is_empty() || data.password.as_str().is_empty() {
        return Some(Err(RegistrationError::EmptyCredentials));
    }
    match data.gender {
        Some(gender) => {
            if !is_valid_gender(gender) {
                return Some(Ok(RegistrationOutcome::InvalidGender));
            }
        },
        None => {},
    }
    match &data.phone {
        Some(phone) => {
            if !is_valid_phone(phone.as_str()) {
                return Some(Ok(RegistrationOutcome::InvalidPhone));
            }
        },
        None => {},
    }
    None
}

/// The row of a new customer account: the data as given, the password as its
/// hash, a balance of zero with two places, the customer role.
pub open spec fn is_new_account(row: NewAccount, data: RegistrationData, hash: String) -> bool {
    &&& row.username == data.username
    &&& row.password_hash == hash
    &&& row.phone == data.phone
    &&& row.gender == data.gender
    &&& row.balance == Amount::from_parts(0, 2)
    &&& row.user_type == ROLE_CUSTOMER
}

/// Builds the row of a new account from data that passed the checks and from the
/// hash of the password, `None` where hashing failed.
pub fn new_account(data: &RegistrationData, hash: Option<String>) -> (r: Result<
    NewAccount,
    RegistrationResult,
>)
    ensures
        match registration_fault(*data) {
            Some(fault) => r == Err::<NewAccount, RegistrationResult>(fault),
            None => match hash {
                Some(hash) => r matches Ok(row) && is_new_account(row, *data, hash),
                None => r == Err::<NewAccount, RegistrationResult>(
                    Err(RegistrationError::HashingFailed),
                ),
            },
        },
{
    match check_registration(data) {
        Some(fault) => Err(fault),
        None => match hash {
            Some(hash) => {
                let balance = match Amount::new(0, 2) {
                    Some(zero) => zero,
                    None => Amount::zero(),
                };
                Ok(
                    NewAccount {
                        username: data.username.clone(),
                        password_hash: hash,
                        phone: data.phone.clone(),
                        gender: data.gender,
                        balance,
                        user_type: ROLE_CUSTOMER,
                    },
                )
            },
            None => Err(Err(RegistrationError::HashingFailed)),
        },
    }
}

/// Checks the data of a registration and, where it passes, hashes the password
/// and builds the row of the new account. Data with a fault fails with that fault
/// and nothing is hashed. Otherwise the row is the one of a new customer whose
/// stored hash the password verifies against, unless hashing failed.
pub fn prepare_registration(data: &RegistrationData) -> (r: Result<NewAccount, RegistrationResult>)
    ensures
        match registration_fault(*data) {
            Some(fault) => r == Err::<NewAccount, RegistrationResult>(fault),
            None => match r {
                Ok(row) => is_new_account(row, *data, row.password_hash) && bcrypt_verdict(
                    data.password@,
                    row.password_hash@,
                ) == Some(true),
                Err(e) => e == Err::<RegistrationOutcome, RegistrationError>(
                    RegistrationError::HashingFailed,
                ),
            },
        },
{
    match check_registration(data) {
        Some(fault) => Err(fault),
        None => {
            let hash = hash_password(data.password.as_str());
            new_account(data, hash)
        },
    }
}

/// How a registration ends once the store has answered the insert: a username
/// that is taken is an outcome of its own, no failure.
pub open spec fn registration_end(write: WriteResult) -> RegistrationResult {
    match write {
        WriteResult::Written { rows } => Ok(RegistrationOutcome::Registered),
        WriteResult::UniqueViolation => Ok(RegistrationOutcome::UsernameTaken),
        WriteResult::Failed => Err(RegistrationError::StoreFailure),
    }
}

/// Says how a registration ended, from what the store answered to the insert.
pub fn finish_registration(write: WriteResult) -> (r: RegistrationResult)
    ensures
        r == registration_end(write),
{
    match write {
        WriteResult::Written { rows } => Ok(RegistrationOutcome::Registered),
        WriteResult::UniqueViolation => Ok(RegistrationOutcome::UsernameTaken),
        WriteResult::Failed => Err(RegistrationError::StoreFailure),
    }
}

/// An account as the store holds it, with the hash of its password.
pub struct StoredAccount {
    pub account: Account,
    pub password_hash: String,
}

/// Why a login was turned away.
#[derive(Clone, Copy, Debug, PartialEq, Eq, Structural)]
pub enum LoginError {
    /// No account of that name, or the password is not the account's.
    InvalidCredentials,
    /// The stored hash could not be read.
    VerificationFailed,
}

/// What a login comes to, from the account found under the name and from what the
/// comparison of password and stored hash gave.
pub open spec fn login_outcome(found: Option<StoredAccount>, verdict: Option<bool>) -> Result<
    Account,
    LoginError,
> {
    match found {
        Some(stored) => match verdict {
            Some(matches) => if matches {
                Ok(stored.account)
            } else {
                Err(LoginError::InvalidCredentials)
            },
            None => Err(LoginError::VerificationFailed),
        },
        None => Err(LoginError::InvalidCredentials),
    }
}

/// Decides a login from the account found under the name, if any, and from what
/// the comparison of password and stored hash gave, `None` where it failed.
pub fn decide_login(found: Option<StoredAccount>, verdict: Option<bool>) -> (r: Result<
    Account,
    LoginError,
>)
    ensures
        r == login_outcome(found, verdict),
{
    match found {
        Some(stored) => match verdict {
            Some(matches) => {
                if matches {
                    Ok(stored.account)
                } else {
                    Err(LoginError::InvalidCredentials)
                }
            },
            None => Err(LoginError::VerificationFailed),
        },
        None => Err(LoginError::InvalidCredentials),
    }
}

/// Holds the password against the stored hash, where there is one.
pub fn verify_password(password: &str, hash: Option<&str>) -> (r: Option<bool>)
    ensures
        r == match hash {
            Some(hash) => bcrypt_verdict(password@, hash@),
            None => None,
        },
{
    match hash {
        Some(hash) => match bcrypt_verify(password, hash) {
            Ok(matches) => Some(matches),
            Err(_) => None,
        },
        None => None,
    }
}

/// Logs in with the account found under the name, if any: the password has to be
/// the one whose hash the account stores.
pub fn login(found: Option<StoredAccount>, password: &str) -> (r: Result<Account, LoginError>)
    ensures
        r == login_outcome(
            found,
            match found {
                Some(stored) => bcrypt_verdict(password@, stored.password_hash@),
                None => None,
            },
        ),
{
    let verdict: Option<bool> = match &found {
        Some(stored) => verify_password(password, Some(stored.password_hash.as_str())),
        None => None,
    };
    decide_login(found, verdict)
}

/// Why a change of password was turned away.
#[derive(Clone, Copy, Debug, PartialEq, Eq, Structural)]
pub enum PasswordError {
    EmptyNewPassword,
    EmptyCurrentPassword,
    /// No customer account of that number.
    AccountNotFound { user_id: i64 },
    /// The stored hash could not be read.
    VerificationFailed,
    /// The current password is not the account's.
    IncorrectPassword,
    /// The new password could not be hashed.
    HashingFailed,
    /// The write changed no row.
    NothingUpdated,
    /// The store reported a failure.
    StoreFailure,
}

/// What is wrong with the data of a change of password, if anything: an empty new
/// password first, then an empty current one.
pub open spec fn password_fault(data: UpdatePasswordData) -> Option<PasswordError> {
    if data.new_password@.len() == 0 {
        Some(PasswordError::EmptyNewPassword)
    } else if data.current_password@.len() == 0 {
        Some(PasswordError::EmptyCurrentPassword)
    } else {
        None
    }
}

/// Checks the data of a change of password before anything is asked of the store.
pub fn check_password_change(data: &UpdatePasswordData) -> (r: Option<PasswordError>)
    ensures
        r == password_fault(*data),
{
    if data.new_password.as_str().is_empty() {
        Some(PasswordError::EmptyNewPassword)
    } else if data.current_password.as_str().is_empty() {
        Some(PasswordError::EmptyCurrentPassword)
    } else {
        None
    }
}

/// Whether the password may be changed, from whether the account was found and
/// from what the comparison of the current password and the stored hash gave.
pub open spec fn password_clearance(user_id: i64, found: bool, verdict: Option<bool>) -> Result<
    (),
    PasswordError,
> {
    if !found {
        Err(PasswordError::AccountNotFound { user_id })
    } else {
        match verdict {
            Some(matches) => if matches {
                Ok(())
            } else {
                Err(PasswordError::IncorrectPassword)
            },
            None => Err(PasswordError::VerificationFailed),
        }
    }
}

/// Says whether the password may be changed.
pub fn clear_password_change(user_id: i64, found: bool, verdict: Option<bool>) -> (r: Result<
    (),
    PasswordError,
>)
    ensures
        r == password_clearance(user_id, found, verdict),
{
    if !found {
        Err(PasswordError::AccountNotFound { user_id })
    } else {
        match verdict {
            Some(matches) => {
                if matches {
                    Ok(())
                } else {
                    Err(PasswordError::IncorrectPassword)
                }
            },
            None => Err(PasswordError::VerificationFailed),
        }
    }
}

/// What hashing the new password comes to: the hash to store, or a failure where
/// there is none.
pub open spec fn hashing_end(hash: Option<String>) -> Result<String, PasswordError> {
    match hash {
        Some(hash) => Ok(hash),
        None => Err(PasswordError::HashingFailed),
    }
}

/// Says what hashing the new password came to, `None` standing for a failure.
pub fn finish_hashing(hash: Option<String>) -> (r: Result<String, PasswordError>)
    ensures
        r == hashing_end(hash),
{
    match hash {
        Some(hash) => Ok(hash),
        None => Err(PasswordError::HashingFailed),
    }
}

/// Checks a change of password, holds the current password against the stored
/// hash of the account, `None` where the account was not found, and hashes the
/// new password where all of that passes. An empty password is turned away first;
/// then an account that was not found, a stored hash that cannot be read and a
/// current password that is not the account's. What comes back otherwise is a hash
/// that the new password verifies against, unless hashing failed.
pub fn prepare_password_change(user_id: i64, data: &UpdatePasswordData, stored_hash: Option<&str>) -> (r:
    Result<String, PasswordError>)
    ensures
        match password_fault(*data) {
            Some(fault) => r == Err::<String, PasswordError>(fault),
            None => match password_clearance(
                user_id,
                stored_hash is Some,
                match stored_hash {
                    Some(hash) => bcrypt_verdict(data.current_password@, hash@),
                    None => None,
                },
            ) {
                Ok(_) => match r {
                    Ok(hash) => bcrypt_verdict(data.new_password@, hash@) == Some(true),
                    Err(e) => e == PasswordError::HashingFailed,
                },
                Err(e) => r == Err::<String, PasswordError>(e),
            },
        },
{
    match check_password_change(data) {
        Some(fault) => {
            return Err(fault);
        },
        None => {},
    }
    let verdict = verify_password(data.current_password.as_str(), stored_hash);
    match clear_password_change(user_id, stored_hash.is_some(), verdict) {
        Ok(_) => finish_hashing(hash_password(data.new_password.as_str())),
        Err(e) => Err(e),
    }
}

/// How a change of password ends once the store has answered the write.
pub open spec fn password_end(write: WriteResult) -> Result<(), PasswordError> {
    match write {
        WriteResult::Written { rows } => if rows > 0 {
            Ok(())
        } else {
            Err(PasswordError::NothingUpdated)
        },
        _ => Err(PasswordError::StoreFailure),
    }
}

/// Says how a change of password ended, from what the store answered to the write.
pub fn finish_password_change(write: WriteResult) -> (r: Result<(), PasswordError>)
    ensures
        r == password_end(write),
{
    match write {
        WriteResult::Written { rows } => {
            if rows > 0 {
                Ok(())
            } else {
                Err(PasswordError::NothingUpdated)
            }
        },
        _ => Err(PasswordError::StoreFailure),
    }
}

/// How an update of account details ended, as far as the rules decide it.
#[derive(Clone, Copy, Debug, PartialEq, Eq, Structural)]
pub enum UpdateOutcome {
    Updated,
    /// Nothing was asked for, or what was asked for is what the account has.
    NoChange,
    UsernameTaken,
    InvalidPhone,
    InvalidGender,
}

/// Why an update of account details was given up.
#[derive(Clone, Copy, Debug, PartialEq, Eq, Structural)]
pub enum UpdateError {
    EmptyUsername,
    /// The store reported a failure.
    StoreFailure,
}

/// How an update of account details ended.
pub type UpdateResult = Result<UpdateOutcome, UpdateError>;

/// What to do with one column of the account.
pub enum Patch<T> {
    /// Leave the column as it is.
    Keep,
    /// Empty the column.
    Clear,
    /// Put this value into the column.
    Put(T),
}

/// What an update writes: one instruction for each column that can change.
pub struct AccountPatch {
    pub username: Patch<String>,
    pub phone: Patch<String>,
    pub gender: Patch<i8>,
}

impl AccountPatch {
    /// Whether there is nothing to write.
    pub open spec fn is_empty(self) -> bool {
        self.username is Keep && self.phone is Keep && self.gender is Keep
    }

    /// Whether there is nothing to write.
    pub fn nothing_to_write(&self) -> (r: bool)
        ensures
            r == self.is_empty(),
    {
        let username: bool = match &self.username {
            Patch::Keep => true,
            _ => false,
        };
        let phone: bool = match &self.phone {
            Patch::Keep => true,
            _ => false,
        };
        let gender: bool = match &self.gender {
            Patch::Keep => true,
            _ => false,
        };
        username && phone && gender
    }
}

/// Whether the store has to be asked about the username: it has where a new
/// username is given. An empty one is turned away at once.
pub open spec fn username_question(data: UpdateUserData) -> Result<bool, UpdateError> {
    match data.username {
        Some(name) => if name@.len() == 0 {
            Err(UpdateError::EmptyUsername)
        } else {
            Ok(true)
        },
        None => Ok(false),
    }
}

/// Says whether the store has to be asked about the username.
pub fn ask_about_username(data: &UpdateUserData) -> (r: Result<bool, UpdateError>)
    ensures
        r == username_question(*data),
{
    match &data.username {
        Some(name) => {
            if name.as_str().is_empty() {
                Err(UpdateError::EmptyUsername)
            } else {
                Ok(true)
            }
        },
        None => Ok(false),
    }
}

/// Whether putting `wanted` in place of the username that the account has, if the
/// account was found, changes anything. Names are compared letter for letter.
pub fn username_changes(current: Option<&str>, wanted: &str) -> (r: bool)
    ensures
        r == !(current matches Some(name) && name@ == wanted@),
{
    match current {
        Some(name) => !same_text(name, wanted),
        None => true,
    }
}

fn same_text(a: &str, b: &str) -> (r: bool)
    ensures
        r == (a@ == b@),
{
    let n = a.unicode_len();
    if n != b.unicode_len() {
        return false;
    }
    let mut i: usize = 0;
    while i < n
        invariant
            i <= n,
            n == a@.len(),
            n == b@.len(),
            forall|j: int| 0 <= j < i ==> a@[j] == b@[j],
        decreases n - i,
    {
        if a.get_char(i) != b.get_char(i) {
            return false;
        }
        i = i + 1;
    }
    assert(a@ =~= b@);
    true
}

/// What is wrong with the data of an update, as far as the data alone tells: an
/// empty username first, then a phone number that is neither empty nor eleven
/// digits, then a gender that is none. The store is not asked for any of this.
pub open spec fn update_fault(data: UpdateUserData) -> Option<UpdateResult> {
    if data.username matches Some(name) && name@.len() == 0 {
        Some(Err(UpdateError::EmptyUsername))
    } else if data.phone matches Some(phone) && phone@.len() != 0 && !valid_phone(phone@) {
        Some(Ok(UpdateOutcome::InvalidPhone))
    } else if data.gender matches Some(gender) && !valid_gender(gender) {
        Some(Ok(UpdateOutcome::InvalidGender))
    } else {
        None
    }
}

/// Checks the data of an update before anything is asked of the store.
pub fn check_update(data: &UpdateUserData) -> (r: Option<UpdateResult>)
    ensures
        r == update_fault(*data),
{
    match &data.username {
        Some(name) => {
            if name.as_str().is_empty() {
                return Some(Err(UpdateError::EmptyUsername));
            }
        },
        None => {},
    }
    match &data.phone {
        Some(phone) => {
            if !phone.as_str().is_empty() && !is_valid_phone(phone.as_str()) {
                return Some(Ok(UpdateOutcome::InvalidPhone));
            }
        },
        None => {},
    }
    match data.gender {
        Some(gender) => {
            if !is_valid_gender(gender) {
                return Some(Ok(UpdateOutcome::InvalidGender));
            }
        },
        None => {},
    }
    None
}

/// The instruction for the username: a name that changes nothing is kept, one
/// that another account has is turned away.
pub open spec fn username_patch(data: UpdateUserData, changes: bool, taken: bool) -> Result<
    Patch<String>,
    UpdateResult,
> {
    match data.username {
        Some(name) => if !changes {
            Ok(Patch::Keep)
        } else if taken {
            Err(Ok(UpdateOutcome::UsernameTaken))
        } else {
            Ok(Patch::Put(name))
        },
        None => Ok(Patch::Keep),
    }
}

/// The instruction for the phone number: an empty text clears the column.
pub open spec fn phone_patch(data: UpdateUserData) -> Patch<String> {
    match data.phone {
        Some(phone) => if phone@.len() == 0 {
            Patch::Clear
        } else {
            Patch::Put(phone)
        },
        None => Patch::Keep,
    }
}

/// The instruction for the gender.
pub open spec fn gender_patch(data: UpdateUserData) -> Patch<i8> {
    match data.gender {
        Some(gender) => Patch::Put(gender),
        None => Patch::Keep,
    }
}

/// What an update writes, or how it ends without a write. Faults of the data
/// go first; then a username that another account has; then, where nothing is
/// left to write, the update ends with `NoChange`.
pub open spec fn account_patch(data: UpdateUserData, changes: bool, taken: bool) -> Result<
    AccountPatch,
    UpdateResult,
> {
    match update_fault(data) {
        Some(fault) => Err(fault),
        None => match username_patch(data, changes, taken) {
            Ok(username) => {
                let patch = AccountPatch {
                    username,
                    phone: phone_patch(data),
                    gender: gender_patch(data),
                };
                if patch.is_empty() {
                    Err(Ok(UpdateOutcome::NoChange))
                } else {
                    Ok(patch)
                }
            },
            Err(e) => Err(e),
        },
    }
}

/// Works out what an update writes. `changes` says whether the wanted username
/// differs from the one the account has, `taken` whether another account has it;
/// neither is looked at where no username is given.
pub fn plan_update(data: &UpdateUserData, changes: bool, taken: bool) -> (r: Result<
    AccountPatch,
    UpdateResult,
>)
    ensures
        r == account_patch(*data, changes, taken),
        r matches Ok(patch) ==> !patch.is_empty(),
{
    match check_update(data) {
        Some(fault) => {
            return Err(fault);
        },
        None => {},
    }
    let username: Patch<String> = match &data.username {
        Some(name) => {
            if !changes {
                Patch::Keep
            } else if taken {
                return Err(Ok(UpdateOutcome::UsernameTaken));
            } else {
                Patch::Put(name.clone())
            }
        },
        None => Patch::Keep,
    };
    let phone: Patch<String> = match &data.phone {
        Some(phone) => {
            if phone.as_str().is_empty() {
                Patch::Clear
            } else {
                Patch::Put(phone.clone())
            }
        },
        None => Patch::Keep,
    };
    let gender: Patch<i8> = match data.gender {
        Some(gender) => Patch::Put(gender),
        None => Patch::Keep,
    };
    let patch = AccountPatch { username, phone, gender };
    if patch.nothing_to_write() {
        Err(Ok(UpdateOutcome::NoChange))
    } else {
        Ok(patch)
    }
}

/// An update that is planned writes a phone number of eleven digits and a gender
/// that is one, if it writes either.
pub proof fn planned_updates_are_valid(data: UpdateUserData, changes: bool, taken: bool)
    ensures
        account_patch(data, changes, taken) matches Ok(patch) ==> {
            &&& patch.phone matches Patch::Put(phone) ==> valid_phone(phone@)
            &&& patch.gender matches Patch::Put(gender) ==> valid_gender(gender)
            &&& patch.username matches Patch::Put(name) ==> name@.len() > 0 && changes && !taken
        },
{
}

/// How an update ends once the store has answered the write: a value that the
/// store holds to be taken is reported as such, not as a failure.
pub open spec fn update_end(write: WriteResult) -> UpdateResult {
    match write {
        WriteResult::Written { rows } => if rows > 0 {
            Ok(UpdateOutcome::Updated)
        } else {
            Ok(UpdateOutcome::NoChange)
        },
        WriteResult::UniqueViolation => Ok(UpdateOutcome::UsernameTaken),
        WriteResult::Failed => Err(UpdateError::StoreFailure),
    }
}

/// Says how an update ended, from what the store answered to the write.
pub fn finish_update(write: WriteResult) -> (r: UpdateResult)
    ensures
        r == update_end(write),
{
    match write {
        WriteResult::Written { rows } => {
            if rows > 0 {
                Ok(UpdateOutcome::Updated)
            } else {
                Ok(UpdateOutcome::NoChange)
            }
        },
        WriteResult::UniqueViolation => Ok(UpdateOutcome::UsernameTaken),
        WriteResult::Failed => Err(UpdateError::StoreFailure),
    }
}

} // verus!
