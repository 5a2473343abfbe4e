//! Accounts: the full record the store keeps, and the metadata the user
//! interface shows.

use vstd::prelude::*;

use crate::text::hex_lower;

verus! {

/// A point in time: whole seconds since the Unix epoch (UTC) and the
/// nanoseconds past that second.
#[derive(Clone, Copy, Debug, PartialEq, Eq, Structural)]
pub struct Timestamp {
    pub secs: i64,
    pub nanos: u32,
}

/// `getrandom::fill` on 16 bytes: `Some` with bytes from the system's random
/// source, `None` when that source fails. Which bytes come is not stated
/// (they are random).
#[verifier::external_body]
fn random_bytes_16() -> (res: Option<[u8; 16]>) {
    let mut buf = [0u8; 16];
    getrandom::fill(&mut buf).ok().map(|_| buf)
}

/// The bytes of a random (version 4, RFC 4122 variant) UUID made from 16
/// random bytes: the high nibble of byte 6 becomes 4, the two high bits of
/// byte 8 become `10`.
pub open spec fn uuid_v4_bytes(b: Seq<u8>) -> Seq<u8> {
    b.update(6, (b[6] & 0x0fu8) | 0x40u8).update(8, (b[8] & 0x3fu8) | 0x80u8)
}

/// The hyphenated lowercase text (8-4-4-4-12 hex digits) of the version 4
/// UUID made from 16 random bytes.
pub open spec fn uuid_v4_text_spec(b: Seq<u8>) -> Seq<char> {
    let v = uuid_v4_bytes(b);
    hex_lower(v.subrange(0, 4)) + seq!['-'] + hex_lower(v.subrange(4, 6)) + seq!['-'] + hex_lower(
        v.subrange(6, 8),
    ) + seq!['-'] + hex_lower(v.subrange(8, 10)) + seq!['-'] + hex_lower(v.subrange(10, 16))
}

/// The text of some version 4 UUID.
pub open spec fn is_uuid_v4_text(s: Seq<char>) -> bool {
    exists|b: Seq<u8>| b.len() == 16 && #[trigger] uuid_v4_text_spec(b) == s
}

/// `uuid::Builder::from_random_bytes(..).into_uuid()` in its `to_string`
/// form: the version 4 UUID made from the bytes, as hyphenated lowercase hex.
#[verifier::external_body]
fn uuid_v4_text(bytes: [u8; 16]) -> (res: String)
    ensures
        res@ == uuid_v4_text_spec(bytes@),
{
    uuid::Builder::from_random_bytes(bytes).into_uuid().to_string()
}

proof fn lemma_hex_lower_len(data: Seq<u8>)
    ensures
        hex_lower(data).len() == 2 * data.len(),
    decreases data.len(),
{
    if data.len() > 0 {
        lemma_hex_lower_len(data.drop_first());
    }
}

/// The text of a version 4 UUID has 36 characters.
pub proof fn lemma_uuid_v4_text_len(s: Seq<char>)
    requires
        is_uuid_v4_text(s),
    ensures
        s.len() == 36,
{
    let b = choose|b: Seq<u8>| b.len() == 16 && #[trigger] uuid_v4_text_spec(b) == s;
    let v = uuid_v4_bytes(b);
    lemma_hex_lower_len(v.subrange(0, 4));
    lemma_hex_lower_len(v.subrange(4, 6));
    lemma_hex_lower_len(v.subrange(6, 8));
    lemma_hex_lower_len(v.subrange(8, 10));
    lemma_hex_lower_len(v.subrange(10, 16));
}

/// A fresh random UUID (version 4) as text; `None` when the system's random
/// source fails.
pub(crate) fn new_uuid_v4() -> (res: Option<String>)
    ensures
        res matches Some(s) ==> is_uuid_v4_text(s@),
{
    match random_bytes_16() {
        Some(b) => {
            let s = uuid_v4_text(b);
            assert(uuid_v4_text_spec(b@) == s@);
            Some(s)
        },
        None => None,
    }
}

#[verifier::external_type_specification]
#[verifier::external_body]
pub struct ExSystemTime(std::time::SystemTime);

/// `SystemTime::now`: the current time of the system clock, of which nothing
/// is stated.
#[verifier::external_body]
fn system_now() -> (res: std::time::SystemTime) {
    std::time::SystemTime::now()
}

/// `SystemTime::duration_since(UNIX_EPOCH)` as whole seconds and the
/// nanoseconds past them: `None` when the time lies before 1970. The
/// nanoseconds are below one second (`Duration::subsec_nanos`); the value
/// of the seconds is not stated.
#[verifier::external_body]
fn since_unix_epoch(t: &std::time::SystemTime) -> (res: Option<(u64, u32)>)
    ensures
        res matches Some(d) ==> d.1 < 1_000_000_000,
{
    t.duration_since(std::time::UNIX_EPOCH).ok().map(|d| (d.as_secs(), d.subsec_nanos()))
}

/// The time `secs` seconds and `nanos` nanoseconds after the Unix epoch, when
/// the seconds fit a signed 64-bit count.
pub open spec fn timestamp_from_unix_spec(secs: u64, nanos: u32) -> Option<Timestamp> {
    if secs <= i64::MAX {
        Some(Timestamp { secs: secs as i64, nanos })
    } else {
        None
    }
}

/// A time that the system clock can report: some whole number of seconds
/// since the Unix epoch that fits a signed 64-bit count, and fewer than a
/// second's nanoseconds past it.
pub open spec fn is_clock_reading(t: Timestamp) -> bool {
    exists|s: u64, n: u32| n < 1_000_000_000 && #[trigger] timestamp_from_unix_spec(s, n) == Some(t)
}

/// The time given as seconds and nanoseconds since the Unix epoch; `None`
/// when the seconds do not fit a signed 64-bit count.
pub fn timestamp_from_unix(secs: u64, nanos: u32) -> (res: Option<Timestamp>)
    ensures
        res == timestamp_from_unix_spec(secs, nanos),
{
    if secs <= i64::MAX as u64 {
        Some(Timestamp { secs: secs as i64, nanos })
    } else {
        None
    }
}

/// The current time; `None` when the system clock is before 1970 or beyond
/// what a signed 64-bit count of seconds holds.
pub(crate) fn now_utc() -> (res: Option<Timestamp>)
    ensures
        res matches Some(t) ==> is_clock_reading(t) && t.secs >= 0 && t.nanos < 1_000_000_000,
{
    let now = system_now();
    match since_unix_epoch(&now) {
        Some((secs, nanos)) => timestamp_from_unix(secs, nanos),
        None => None,
    }
}

/// The full record of an account.
#[derive(Debug)]
pub struct Account {
    pub id: String,
    pub name: String,
    pub email: Option<String>,
    pub note: Option<String>,
    pub plugin_id: String,
    /// The machine id bound to the account, written back when switching to it.
    pub bound_machine_id: Option<String>,
    /// Encrypted token snapshot (optional, to keep a login).
    pub token_enc: Option<String>,
    pub created_at: Timestamp,
    pub last_used_at: Option<Timestamp>,
    pub is_active: bool,
    pub has_snapshot: bool,
}

impl Clone for Account {
    fn clone(&self) -> (res: Self)
        ensures
            res == *self,
    {
        Account {
            id: self.id.clone(),
            name: self.name.clone(),
            email: self.email.clone(),
            note: self.note.clone(),
            plugin_id: self.plugin_id.clone(),
            bound_machine_id: self.bound_machine_id.clone(),
            token_enc: self.token_enc.clone(),
            created_at: self.created_at,
            last_used_at: self.last_used_at,
            is_active: self.is_active,
            has_snapshot: self.has_snapshot,
        }
    }
}

/// What the user interface shows of an account.
#[derive(Clone, Debug)]
pub struct AccountMetadata {
    pub id: String,
    pub name: String,
    pub email: Option<String>,
    pub note: Option<String>,
    pub plugin_id: String,
    pub has_snapshot: bool,
    pub created_at: Timestamp,
    pub last_used_at: Option<Timestamp>,
    pub is_active: bool,
}

/// The metadata of an account: its fields without the machine id and the token.
pub open spec fn metadata_of(acc: Account) -> AccountMetadata {
    AccountMetadata {
        id: acc.id,
        name: acc.name,
        email: acc.email,
        note: acc.note,
        plugin_id: acc.plugin_id,
        has_snapshot: acc.has_snapshot,
        created_at: acc.created_at,
        last_used_at: acc.last_used_at,
        is_active: acc.is_active,
    }
}

impl<'a> From<&'a Account> for AccountMetadata {
    fn from(acc: &'a Account) -> (res: AccountMetadata) {
        AccountMetadata {
            id: acc.id.clone(),
            name: acc.name.clone(),
            email: acc.email.clone(),
            note: acc.note.clone(),
            plugin_id: acc.plugin_id.clone(),
            has_snapshot: acc.has_snapshot,
            created_at: acc.created_at,
            last_used_at: acc.last_used_at,
            is_active: acc.is_active,
        }
    }
}

impl<'a> vstd::std_specs::convert::FromSpecImpl<&'a Account> for AccountMetadata {
    open spec fn obeys_from_spec() -> bool {
        true
    }

    open spec fn from_spec(acc: &'a Account) -> AccountMetadata {
        metadata_of(*acc)
    }
}

impl Account {
    /// A new account with a fresh random id (a version 4 UUID), created at
    /// the current reading of the system clock:
    /// not bound to a machine id, no token, never used, inactive, no
    /// snapshot. `None` when the system gives no random bytes or the clock
    /// is before 1970.
    pub fn new(name: String, email: Option<String>, note: Option<String>, plugin_id: String) -> (res:
        Option<Self>)
        ensures
            res matches Some(a) ==> {
                &&& is_uuid_v4_text(a.id@)
                &&& a.name == name
                &&& a.email == email
                &&& a.note == note
                &&& a.plugin_id == plugin_id
                &&& a.bound_machine_id is None
                &&& a.token_enc is None
                &&& is_clock_reading(a.created_at)
                &&& a.created_at.secs >= 0
                &&& a.created_at.nanos < 1_000_000_000
                &&& a.last_used_at is None
                &&& !a.is_active
                &&& !a.has_snapshot
            },
    {
        let id = match new_uuid_v4() {
            Some(id) => id,
            None => return None,
        };
        let created_at = match now_utc() {
            Some(t) => t,
            None => return None,
        };
        Some(
            Account {
                id,
                name,
                email,
                note,
                plugin_id,
                bound_machine_id: None,
                token_enc: None,
                created_at,
                last_used_at: None,
                is_active: false,
                has_snapshot: false,
            },
        )
    }
}

} // verus!
