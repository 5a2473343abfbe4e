//! The account store: the accounts of all plugins and the flow settings.
//! The application keeps them in `accounts.json` under the data directory
//! and the snapshots under `snapshots/<plugin_id>/<account name>`.

use vstd::prelude::*;

use crate::account::metadata_of;
use crate::account::is_clock_reading;
use crate::account::is_uuid_v4_text;
use crate::account::now_utc;
use crate::account::Account;
use crate::account::AccountMetadata;
use crate::account::Timestamp;
use crate::flow::FlowSettings;
use crate::flow::FlowTarget;
use crate::flow::SnapshotDir;
use crate::plugin::PluginConfig;
use crate::plugin::PluginError;
use crate::text::str_eq;

verus! {

/// Errors of the account store.
#[derive(Debug)]
pub enum StoreError {
    /// An I/O operation failed; the text is the system's message.
    Io(String),
    /// The data could not be (de)serialized; the text is the parser's message.
    Serde(String),
    /// No account with this id exists.
    NotFound(String),
    /// The plugin already has an account with this name.
    DuplicateName(String),
    /// A plugin operation failed.
    Plugin(PluginError),
    /// Another failure.
    Other(String),
}

impl StoreError {
    /// The user-facing message of the error.
    pub open spec fn message_spec(&self) -> Seq<char> {
        match self {
            StoreError::Io(m) => "IO 错误: "@ + m@,
            StoreError::Serde(m) => "序列化错误: "@ + m@,
            StoreError::NotFound(id) => "账号不存在: "@ + id@,
            StoreError::DuplicateName(n) => "账号名已存在: "@ + n@,
            StoreError::Plugin(e) => "插件错误: "@ + e.message_spec(),
            StoreError::Other(m) => "操作失败: "@ + m@,
        }
    }

    /// The user-facing message of the error.
    pub fn message(&self) -> (res: String)
        ensures
            res@ == self.message_spec(),
    {
        let (prefix, detail) = match self {
            StoreError::Io(m) => ("IO 错误: ", m.clone()),
            StoreError::Serde(m) => ("序列化错误: ", m.clone()),
            StoreError::NotFound(id) => ("账号不存在: ", id.clone()),
            StoreError::DuplicateName(n) => ("账号名已存在: ", n.clone()),
            StoreError::Plugin(e) => ("插件错误: ", e.message()),
            StoreError::Other(m) => ("操作失败: ", m.clone()),
        };
        let mut res = prefix.to_owned();
        res.append(detail.as_str());
        res
    }
}

/// What the store keeps.
pub struct StoreData {
    pub accounts: Vec<Account>,
    pub settings: FlowSettings,
}

impl Default for StoreData {
    fn default() -> (res: Self)
        ensures
            res.accounts@.len() == 0,
            res.settings == (FlowSettings {}),
    {
        StoreData { accounts: Vec::new(), settings: FlowSettings {} }
    }
}

/// A snapshot directory that has to be renamed.
pub struct SnapshotMove {
    pub from: SnapshotDir,
    pub to: SnapshotDir,
}

// ---------------------------------------------------------------------------
// Model
// ---------------------------------------------------------------------------

/// The position of the first account that `p` accepts; the length when none does.
pub open spec fn first_index(s: Seq<Account>, p: spec_fn(Account) -> bool) -> int
    decreases s.len(),
{
    if s.len() == 0 {
        0
    } else if p(s[0]) {
        0
    } else {
        1 + first_index(s.drop_first(), p)
    }
}

proof fn lemma_first_index(s: Seq<Account>, p: spec_fn(Account) -> bool, i: int)
    requires
        0 <= i <= s.len(),
        forall|j: int| 0 <= j < i ==> !p(#[trigger] s[j]),
        i == s.len() || p(s[i]),
    ensures
        first_index(s, p) == i,
    decreases i,
{
    if i > 0 {
        assert(!p(s[0]));
        assert forall|j: int| 0 <= j < i - 1 implies !p(#[trigger] s.drop_first()[j]) by {
            assert(s.drop_first()[j] == s[j + 1]);
        }
        lemma_first_index(s.drop_first(), p, i - 1);
    }
}

proof fn lemma_first_index_bound(s: Seq<Account>, p: spec_fn(Account) -> bool, i: int)
    requires
        0 <= i < s.len(),
        p(s[i]),
    ensures
        first_index(s, p) <= i,
    decreases i,
{
    if i > 0 && !p(s[0]) {
        assert(s.drop_first()[i - 1] == s[i]);
        lemma_first_index_bound(s.drop_first(), p, i - 1);
    }
}

/// Accounts with this id.
pub open spec fn with_id(id: Seq<char>) -> spec_fn(Account) -> bool {
    |a: Account| a.id@ == id
}

/// Active accounts of this plugin.
pub open spec fn active_of(plugin_id: Seq<char>) -> spec_fn(Account) -> bool {
    |a: Account| a.plugin_id@ == plugin_id && a.is_active
}

/// The metadata of the accounts of a plugin, in order.
pub open spec fn plugin_metadata(accounts: Seq<Account>, plugin_id: Seq<char>) -> Seq<
    AccountMetadata,
>
    decreases accounts.len(),
{
    if accounts.len() == 0 {
        Seq::empty()
    } else {
        let rest = plugin_metadata(accounts.drop_last(), plugin_id);
        if accounts.last().plugin_id@ == plugin_id {
            rest.push(metadata_of(accounts.last()))
        } else {
            rest
        }
    }
}

/// The accounts without those with this id, in order.
pub open spec fn without_id(accounts: Seq<Account>, id: Seq<char>) -> Seq<Account>
    decreases accounts.len(),
{
    if accounts.len() == 0 {
        Seq::empty()
    } else {
        let rest = without_id(accounts.drop_last(), id);
        if accounts.last().id@ == id {
            rest
        } else {
            rest.push(accounts.last())
        }
    }
}

/// The accounts with those of a plugin made inactive.
pub open spec fn deactivated(accounts: Seq<Account>, plugin_id: Seq<char>) -> Seq<Account> {
    Seq::new(
        accounts.len(),
        |j: int|
            if accounts[j].plugin_id@ == plugin_id {
                Account { is_active: false, ..accounts[j] }
            } else {
                accounts[j]
            },
    )
}

/// No plugin has two active accounts.
pub open spec fn at_most_one_active(accounts: Seq<Account>) -> bool {
    forall|i: int, j: int|
        0 <= i < accounts.len() && 0 <= j < accounts.len() && i != j && #[trigger] accounts[i].is_active
            && #[trigger] accounts[j].is_active ==> accounts[i].plugin_id@ != accounts[j].plugin_id@
}

/// The plugin already has an account with this name.
pub open spec fn name_taken(accounts: Seq<Account>, plugin_id: Seq<char>, name: Seq<char>) -> bool {
    exists|i: int|
        0 <= i < accounts.len() && #[trigger] accounts[i].plugin_id@ == plugin_id && accounts[i].name@
            == name
}

proof fn lemma_without_id_contains(accounts: Seq<Account>, id: Seq<char>, k: int)
    requires
        0 <= k < without_id(accounts, id).len(),
    ensures
        accounts.contains(without_id(accounts, id)[k]),
        without_id(accounts, id)[k].id@ != id,
    decreases accounts.len(),
{
    if accounts.len() > 0 {
        let rest = without_id(accounts.drop_last(), id);
        if k < rest.len() {
            lemma_without_id_contains(accounts.drop_last(), id, k);
            let x = rest[k];
            let m = choose|m: int| 0 <= m < accounts.drop_last().len() && accounts.drop_last()[m] == x;
            assert(accounts[m] == x);
        } else {
            assert(accounts[accounts.len() - 1] == accounts.last());
        }
    }
}

proof fn lemma_without_id_single_active(accounts: Seq<Account>, id: Seq<char>)
    requires
        at_most_one_active(accounts),
    ensures
        at_most_one_active(without_id(accounts, id)),
    decreases accounts.len(),
{
    if accounts.len() > 0 {
        let init = accounts.drop_last();
        assert(at_most_one_active(init)) by {
            assert forall|i: int, j: int|
                0 <= i < init.len() && 0 <= j < init.len() && i != j && #[trigger] init[i].is_active
                    && #[trigger] init[j].is_active implies init[i].plugin_id@ != init[j].plugin_id@ by {
                assert(init[i] == accounts[i] && init[j] == accounts[j]);
            }
        }
        lemma_without_id_single_active(init, id);
        let rest = without_id(init, id);
        let last = accounts.last();
        if last.id@ != id {
            let res = rest.push(last);
            assert forall|i: int, j: int|
                0 <= i < res.len() && 0 <= j < res.len() && i != j && #[trigger] res[i].is_active
                    && #[trigger] res[j].is_active implies res[i].plugin_id@ != res[j].plugin_id@ by {
                if i < rest.len() && j < rest.len() {
                    assert(res[i] == rest[i] && res[j] == rest[j]);
                } else {
                    let k = if i < rest.len() { i } else { j };
                    assert(k < rest.len());
                    lemma_without_id_contains(init, id, k);
                    let m = choose|m: int| 0 <= m < init.len() && init[m] == rest[k];
                    assert(accounts[m] == rest[k]);
                    assert(accounts[accounts.len() - 1] == last);
                }
            }
        }
    }
}

/// After the accounts with an id are removed, no account has that id, and
/// every remaining account was there before.
pub proof fn lemma_deleted_id_gone(accounts: Seq<Account>, id: Seq<char>)
    ensures
        forall|k: int|
            0 <= k < without_id(accounts, id).len() ==> #[trigger] without_id(accounts, id)[k].id@
                != id && accounts.contains(without_id(accounts, id)[k]),
{
    assert forall|k: int| 0 <= k < without_id(accounts, id).len() implies #[trigger] without_id(
        accounts,
        id,
    )[k].id@ != id && accounts.contains(without_id(accounts, id)[k]) by {
        lemma_without_id_contains(accounts, id, k);
    }
}

/// An account appended to the store is the last entry of its plugin's list,
/// after the entries that were there.
pub proof fn lemma_added_account_listed(accounts: Seq<Account>, acc: Account)
    ensures
        plugin_metadata(accounts.push(acc), acc.plugin_id@) == plugin_metadata(
            accounts,
            acc.plugin_id@,
        ).push(metadata_of(acc)),
{
    assert(accounts.push(acc).drop_last() =~= accounts);
}

/// The failure of adding an account when no id can be drawn or the clock
/// cannot be read.
pub open spec fn account_unavailable_message() -> Seq<char> {
    "无法生成账号 id 或读取系统时间"@
}

/// The failure of an operation that needs the current time when the clock
/// cannot be read.
pub open spec fn clock_unavailable_message() -> Seq<char> {
    "无法读取系统时间"@
}

/// The snapshot directory of an account under a plugin id.
pub open spec fn snapshot_of(plugin_id: String, acc: Account) -> SnapshotDir {
    SnapshotDir { plugin_id, name: acc.name }
}

/// The account that adding `name` to a plugin creates: the given id and
/// creation time, bound to `machine_id`, no email, no token, never used,
/// inactive, and marked as having a snapshot.
pub open spec fn added_account(
    name: String,
    note: Option<String>,
    plugin_id: String,
    machine_id: Option<String>,
    id: String,
    created_at: Timestamp,
) -> Account {
    Account {
        id,
        name,
        email: None,
        note,
        plugin_id,
        bound_machine_id: machine_id,
        token_enc: None,
        created_at,
        last_used_at: None,
        is_active: false,
        has_snapshot: true,
    }
}

/// Whether switching a plugin to `account_id` first backs up the plugin's
/// active account: there is one, and it is another account.
pub open spec fn switch_backs_up(accounts: Seq<Account>, plugin_id: Seq<char>, account_id: Seq<
    char,
>) -> bool {
    let c = first_index(accounts, active_of(plugin_id));
    c < accounts.len() && accounts[c].id@ != account_id
}

/// The accounts once the account backed up before a switch (the first one
/// with the active account's id) is marked as having a snapshot.
pub open spec fn switch_marked(accounts: Seq<Account>, plugin_id: Seq<char>, account_id: Seq<char>) -> Seq<
    Account,
> {
    let c = first_index(accounts, active_of(plugin_id));
    let h = first_index(accounts, with_id(accounts[c].id@));
    if switch_backs_up(accounts, plugin_id, account_id) {
        accounts.update(h, Account { has_snapshot: true, ..accounts[h] })
    } else {
        accounts
    }
}

/// The accounts of a switch once every account of the plugin is inactive.
pub open spec fn switch_deactivated(accounts: Seq<Account>, plugin_id: Seq<char>, account_id: Seq<
    char,
>) -> Seq<Account> {
    deactivated(switch_marked(accounts, plugin_id, account_id), plugin_id)
}

/// The backup target of a switch: the plugin's active account with its
/// snapshot directory, when it is backed up; none otherwise.
pub open spec fn switch_backup(accounts: Seq<Account>, plugin_id: String, account_id: Seq<char>) -> Option<
    FlowTarget,
> {
    let c = first_index(accounts, active_of(plugin_id@));
    if switch_backs_up(accounts, plugin_id@, account_id) {
        Some(FlowTarget { account: accounts[c], snapshot_dir: snapshot_of(plugin_id, accounts[c]) })
    } else {
        None
    }
}

/// A switch of a plugin to the account with `account_id` at time `now` led
/// from `olds` to `news` with result `res`: the account (the first with that
/// id) is active and used at `now`, every other account is as after the
/// backup mark and the deactivation, the plugin has no other active account,
/// and the result is the account with its snapshot directory.
pub open spec fn switched_to(
    olds: Seq<Account>,
    news: Seq<Account>,
    plugin_id: String,
    account_id: Seq<char>,
    now: Timestamp,
    res: Result<FlowTarget, StoreError>,
) -> bool {
    let off = switch_deactivated(olds, plugin_id@, account_id);
    let t = first_index(olds, with_id(account_id));
    &&& t < olds.len()
    &&& news.len() == olds.len()
    &&& news[t] == Account { is_active: true, last_used_at: Some(now), ..off[t] }
    &&& forall|j: int| 0 <= j < news.len() && j != t ==> news[j] == off[j]
    &&& forall|j: int|
        0 <= j < news.len() && #[trigger] news[j].plugin_id@ == plugin_id@ && news[j].is_active
            ==> j == t
    &&& res matches Ok(target) && target.account == news[t] && target.snapshot_dir == snapshot_of(
        plugin_id,
        olds[t],
    )
}

// ---------------------------------------------------------------------------
// Store
// ---------------------------------------------------------------------------

/// The account store.
pub struct Store {
    data_dir: String,
    data: StoreData,
}

impl Store {
    /// The accounts, in order.
    pub closed spec fn accounts(&self) -> Seq<Account> {
        self.data.accounts@
    }

    /// The flow settings.
    pub closed spec fn settings(&self) -> FlowSettings {
        self.data.settings
    }

    /// The data directory.
    pub closed spec fn dir(&self) -> Seq<char> {
        self.data_dir@
    }

    /// An empty store for a data directory.
    pub fn new(data_dir: String) -> (res: Self)
        ensures
            res.dir() == data_dir@,
            res.accounts().len() == 0,
            res.settings() == (FlowSettings {}),
    {
        Store { data_dir, data: StoreData::default() }
    }

    /// The data directory.
    pub fn data_dir(&self) -> (res: &String)
        ensures
            res@ == self.dir(),
    {
        &self.data_dir
    }

    /// What the store keeps (to save or export it).
    pub fn data(&self) -> (res: &StoreData)
        ensures
            res.accounts@ == self.accounts(),
            res.settings == self.settings(),
    {
        &self.data
    }

    /// Replaces what the store keeps (after loading or importing it).
    pub fn replace_data(&mut self, data: StoreData)
        ensures
            final(self).dir() == old(self).dir(),
            final(self).accounts() == data.accounts@,
            final(self).settings() == data.settings,
    {
        self.data = data;
    }

    fn find(&self, p: Ghost<spec_fn(Account) -> bool>, id: &str) -> (res: usize)
        requires
            p@ == with_id(id@),
        ensures
            res == first_index(self.accounts(), p@),
            res <= self.accounts().len(),
    {
        let mut i: usize = 0;
        while i < self.data.accounts.len()
            invariant
                p@ == with_id(id@),
                i <= self.accounts().len(),
                forall|j: int| 0 <= j < i ==> !(p@)(#[trigger] self.accounts()[j]),
            decreases self.accounts().len() - i,
        {
            if str_eq(self.data.accounts[i].id.as_str(), id) {
                proof {
                    lemma_first_index(self.accounts(), p@, i as int);
                }
                return i;
            }
            i = i + 1;
        }
        proof {
            lemma_first_index(self.accounts(), p@, i as int);
        }
        i
    }

    /// The first account with this id, to change in place, or `NotFound`.
    pub fn get_account_mut(&mut self, id: &str) -> (res: Result<&mut Account, StoreError>)
        ensures
            final(self).dir() == old(self).dir(),
            final(self).settings() == old(self).settings(),
            ({
                let i = first_index(old(self).accounts(), with_id(id@));
                if i < old(self).accounts().len() {
                    res matches Ok(a) && *a == old(self).accounts()[i] && final(self).accounts()
                        == old(self).accounts().update(i, *final(a))
                } else {
                    &&& res matches Err(StoreError::NotFound(e)) && e@ == id@
                    &&& final(self).accounts() == old(self).accounts()
                }
            }),
    {
        let i = self.find(Ghost(with_id(id@)), id);
        if i < self.data.accounts.len() {
            Ok(&mut self.data.accounts[i])
        } else {
            Err(StoreError::NotFound(id.to_owned()))
        }
    }

    /// The metadata of the accounts of a plugin, in order.
    pub fn list_accounts(&self, plugin_id: &str) -> (res: Vec<AccountMetadata>)
        ensures
            res@ == plugin_metadata(self.accounts(), plugin_id@),
    {
        let mut res: Vec<AccountMetadata> = Vec::new();
        for i in 0..self.data.accounts.len()
            invariant
                res@ == plugin_metadata(self.accounts().take(i as int), plugin_id@),
        {
            assert(self.accounts().take(i + 1).drop_last() =~= self.accounts().take(i as int));
            let acc = &self.data.accounts[i];
            if str_eq(acc.plugin_id.as_str(), plugin_id) {
                res.push(AccountMetadata::from(acc));
            }
        }
        assert(self.accounts().take(self.accounts().len() as int) =~= self.accounts());
        res
    }

    /// The first account with this id, or `NotFound`.
    pub fn get_account(&self, id: &str) -> (res: Result<&Account, StoreError>)
        ensures
            ({
                let i = first_index(self.accounts(), with_id(id@));
                if i < self.accounts().len() {
                    res matches Ok(a) && *a == self.accounts()[i]
                } else {
                    res matches Err(StoreError::NotFound(e)) && e@ == id@
                }
            }),
    {
        let i = self.find(Ghost(with_id(id@)), id);
        if i < self.data.accounts.len() {
            Ok(&self.data.accounts[i])
        } else {
            Err(StoreError::NotFound(id.to_owned()))
        }
    }

    fn find_active(&self, plugin_id: &str) -> (res: usize)
        ensures
            res == first_index(self.accounts(), active_of(plugin_id@)),
            res <= self.accounts().len(),
    {
        let ghost p = active_of(plugin_id@);
        let mut i: usize = 0;
        while i < self.data.accounts.len()
            invariant
                p == active_of(plugin_id@),
                i <= self.accounts().len(),
                forall|j: int| 0 <= j < i ==> !p(#[trigger] self.accounts()[j]),
            decreases self.accounts().len() - i,
        {
            if str_eq(self.data.accounts[i].plugin_id.as_str(), plugin_id)
                && self.data.accounts[i].is_active {
                proof {
                    lemma_first_index(self.accounts(), p, i as int);
                }
                return i;
            }
            i = i + 1;
        }
        proof {
            lemma_first_index(self.accounts(), p, i as int);
        }
        i
    }

    /// Whether the plugin already has an account with this name.
    fn name_in_use(&self, plugin_id: &str, name: &str) -> (res: bool)
        ensures
            res == name_taken(self.accounts(), plugin_id@, name@),
    {
        let mut i: usize = 0;
        while i < self.data.accounts.len()
            invariant
                i <= self.accounts().len(),
                forall|j: int|
                    0 <= j < i ==> !(#[trigger] self.accounts()[j].plugin_id@ == plugin_id@
                        && self.accounts()[j].name@ == name@),
            decreases self.accounts().len() - i,
        {
            if str_eq(self.data.accounts[i].plugin_id.as_str(), plugin_id) && str_eq(
                self.data.accounts[i].name.as_str(),
                name,
            ) {
                return true;
            }
            i = i + 1;
        }
        false
    }

    /// Adds the account with id `id`, created at `created_at`, to a plugin,
    /// bound to `machine_id`, and marks it as having a snapshot; returns it
    /// with the target of the backup that fills its snapshot. A name that
    /// the plugin already uses is refused.
    pub fn add_account_at(
        &mut self,
        name: String,
        note: Option<String>,
        plugin_id: String,
        machine_id: Option<String>,
        id: String,
        created_at: Timestamp,
    ) -> (res: Result<(Account, FlowTarget), StoreError>)
        ensures
            final(self).dir() == old(self).dir(),
            final(self).settings() == old(self).settings(),
            if name_taken(old(self).accounts(), plugin_id@, name@) {
                &&& res matches Err(StoreError::DuplicateName(n)) && n == name
                &&& final(self).accounts() == old(self).accounts()
            } else {
                &&& res matches Ok((acc, target)) && acc == added_account(
                    name,
                    note,
                    plugin_id,
                    machine_id,
                    id,
                    created_at,
                ) && target.account == (Account { has_snapshot: false, ..acc })
                    && target.snapshot_dir == snapshot_of(plugin_id, acc)
                    && final(self).accounts() == old(self).accounts().push(acc)
            },
            at_most_one_active(old(self).accounts()) ==> at_most_one_active(final(self).accounts()),
    {
        if self.name_in_use(plugin_id.as_str(), name.as_str()) {
            return Err(StoreError::DuplicateName(name));
        }
        let snapshot_dir = SnapshotDir { plugin_id: plugin_id.clone(), name: name.clone() };
        let before_backup = Account {
            id,
            name,
            email: None,
            note,
            plugin_id,
            bound_machine_id: machine_id,
            token_enc: None,
            created_at,
            last_used_at: None,
            is_active: false,
            has_snapshot: false,
        };
        let mut acc = before_backup.clone();
        acc.has_snapshot = true;
        let ghost old_accounts = self.accounts();
        self.data.accounts.push(acc.clone());
        proof {
            assert forall|a: int, b: int|
                at_most_one_active(old_accounts) && 0 <= a < self.accounts().len() && 0 <= b
                    < self.accounts().len() && a != b && #[trigger] self.accounts()[a].is_active
                    && #[trigger] self.accounts()[b].is_active implies self.accounts()[a].plugin_id@
                != self.accounts()[b].plugin_id@ by {
                assert(a < old_accounts.len() && b < old_accounts.len());
                assert(self.accounts()[a] == old_accounts[a]);
                assert(self.accounts()[b] == old_accounts[b]);
            }
        }
        Ok((acc, FlowTarget { account: before_backup, snapshot_dir }))
    }

    /// Adds an account to a plugin, as `add_account_at` with a fresh random
    /// id (a version 4 UUID) and the current reading of the system clock.
    /// A name that the plugin already uses is refused before either is
    /// drawn; when the system gives no random bytes or the clock cannot be
    /// read, nothing changes and the result is an error.
    pub fn add_account(
        &mut self,
        name: String,
        note: Option<String>,
        plugin_id: String,
        machine_id: Option<String>,
    ) -> (res: Result<(Account, FlowTarget), StoreError>)
        ensures
            final(self).dir() == old(self).dir(),
            final(self).settings() == old(self).settings(),
            if name_taken(old(self).accounts(), plugin_id@, name@) {
                &&& res matches Err(StoreError::DuplicateName(n)) && n == name
                &&& final(self).accounts() == old(self).accounts()
            } else {
                match res {
                    Ok((acc, target)) => {
                        &&& acc == added_account(
                            name,
                            note,
                            plugin_id,
                            machine_id,
                            acc.id,
                            acc.created_at,
                        )
                        &&& is_uuid_v4_text(acc.id@)
                        &&& is_clock_reading(acc.created_at)
                        &&& acc.created_at.secs >= 0
                        &&& acc.created_at.nanos < 1_000_000_000
                        &&& target.account == Account { has_snapshot: false, ..acc }
                        &&& target.snapshot_dir == snapshot_of(plugin_id, acc)
                        &&& final(self).accounts() == old(self).accounts().push(acc)
                    },
                    Err(e) => {
                        &&& e matches StoreError::Other(m) && m@ == account_unavailable_message()
                        &&& final(self).accounts() == old(self).accounts()
                    },
                }
            },
            at_most_one_active(old(self).accounts()) ==> at_most_one_active(final(self).accounts()),
    {
        if self.name_in_use(plugin_id.as_str(), name.as_str()) {
            return Err(StoreError::DuplicateName(name));
        }
        let drawn = match Account::new(name, None, note, plugin_id) {
            Some(a) => a,
            None => return Err(StoreError::Other("无法生成账号 id 或读取系统时间".to_owned())),
        };
        self.add_account_at(
            drawn.name,
            drawn.note,
            drawn.plugin_id,
            machine_id,
            drawn.id,
            drawn.created_at,
        )
    }

    /// Renames an account and replaces its note; where the name changes,
    /// its snapshot directory has to move along.
    pub fn update_account(&mut self, id: &str, name: String, note: Option<String>) -> (res: Result<
        Option<SnapshotMove>,
        StoreError,
    >)
        ensures
            final(self).dir() == old(self).dir(),
            final(self).settings() == old(self).settings(),
            ({
                let olds = old(self).accounts();
                let i = first_index(olds, with_id(id@));
                if i < olds.len() {
                    &&& final(self).accounts() == olds.update(
                        i,
                        Account { name: name, note: note, ..olds[i] },
                    )
                    &&& res matches Ok(mv) && if olds[i].name@ != name@ {
                        mv matches Some(m) && m.from == snapshot_of(olds[i].plugin_id, olds[i])
                            && m.to == (SnapshotDir { plugin_id: olds[i].plugin_id, name: name })
                    } else {
                        mv is None
                    }
                } else {
                    &&& res matches Err(StoreError::NotFound(e)) && e@ == id@
                    &&& final(self).accounts() == olds
                }
            }),
            at_most_one_active(old(self).accounts()) ==> at_most_one_active(final(self).accounts()),
    {
        let i = self.find(Ghost(with_id(id@)), id);
        if i >= self.data.accounts.len() {
            return Err(StoreError::NotFound(id.to_owned()));
        }
        let ghost olds = self.accounts();
        let mut acc = self.data.accounts[i].clone();
        let renamed = acc.name != name;
        let mv = if renamed {
            Some(
                SnapshotMove {
                    from: SnapshotDir { plugin_id: acc.plugin_id.clone(), name: acc.name.clone() },
                    to: SnapshotDir { plugin_id: acc.plugin_id.clone(), name: name.clone() },
                },
            )
        } else {
            None
        };
        acc.name = name;
        acc.note = note;
        self.data.accounts.set(i, acc);
        proof {
            assert forall|a: int, b: int|
                at_most_one_active(olds) && 0 <= a < self.accounts().len() && 0 <= b
                    < self.accounts().len() && a != b && #[trigger] self.accounts()[a].is_active
                    && #[trigger] self.accounts()[b].is_active implies self.accounts()[a].plugin_id@
                != self.accounts()[b].plugin_id@ by {
                assert(self.accounts()[a].is_active == olds[a].is_active);
                assert(self.accounts()[b].is_active == olds[b].is_active);
                assert(self.accounts()[a].plugin_id == olds[a].plugin_id);
                assert(self.accounts()[b].plugin_id == olds[b].plugin_id);
            }
        }
        Ok(mv)
    }

    /// Removes every account with this id; returns the snapshot directory
    /// of the first of them, which has to be removed too.
    pub fn delete_account(&mut self, id: &str) -> (res: Result<SnapshotDir, StoreError>)
        ensures
            final(self).dir() == old(self).dir(),
            final(self).settings() == old(self).settings(),
            ({
                let olds = old(self).accounts();
                let i = first_index(olds, with_id(id@));
                if i < olds.len() {
                    &&& final(self).accounts() == without_id(olds, id@)
                    &&& res matches Ok(d) && d == snapshot_of(olds[i].plugin_id, olds[i])
                } else {
                    &&& res matches Err(StoreError::NotFound(e)) && e@ == id@
                    &&& final(self).accounts() == olds
                }
            }),
            at_most_one_active(old(self).accounts()) ==> at_most_one_active(final(self).accounts()),
    {
        let i = self.find(Ghost(with_id(id@)), id);
        if i >= self.data.accounts.len() {
            return Err(StoreError::NotFound(id.to_owned()));
        }
        let ghost olds = self.accounts();
        let dir = SnapshotDir {
            plugin_id: self.data.accounts[i].plugin_id.clone(),
            name: self.data.accounts[i].name.clone(),
        };
        let mut kept: Vec<Account> = Vec::new();
        for k in 0..self.data.accounts.len()
            invariant
                olds == self.accounts(),
                kept@ == without_id(olds.take(k as int), id@),
        {
            assert(olds.take(k + 1).drop_last() =~= olds.take(k as int));
            if !str_eq(self.data.accounts[k].id.as_str(), id) {
                kept.push(self.data.accounts[k].clone());
            }
        }
        assert(olds.take(olds.len() as int) =~= olds);
        self.data.accounts = kept;
        proof {
            if at_most_one_active(olds) {
                lemma_without_id_single_active(olds, id@);
            }
        }
        Ok(dir)
    }

    /// Marks an account as having a snapshot; returns the target of the
    /// backup that fills it, under the plugin's id.
    pub fn save_snapshot(&mut self, account_id: &str, plugin: &PluginConfig) -> (res: Result<
        FlowTarget,
        StoreError,
    >)
        ensures
            final(self).dir() == old(self).dir(),
            final(self).settings() == old(self).settings(),
            ({
                let olds = old(self).accounts();
                let i = first_index(olds, with_id(account_id@));
                if i < olds.len() {
                    &&& final(self).accounts() == olds.update(
                        i,
                        Account { has_snapshot: true, ..olds[i] },
                    )
                    &&& res matches Ok(t) && t.account == olds[i] && t.snapshot_dir == snapshot_of(
                        plugin.id,
                        olds[i],
                    )
                } else {
                    &&& res matches Err(StoreError::NotFound(e)) && e@ == account_id@
                    &&& final(self).accounts() == olds
                }
            }),
            at_most_one_active(old(self).accounts()) ==> at_most_one_active(final(self).accounts()),
    {
        let i = self.find(Ghost(with_id(account_id@)), account_id);
        if i >= self.data.accounts.len() {
            return Err(StoreError::NotFound(account_id.to_owned()));
        }
        let ghost olds = self.accounts();
        let acc = self.data.accounts[i].clone();
        let target = FlowTarget {
            snapshot_dir: SnapshotDir { plugin_id: plugin.id.clone(), name: acc.name.clone() },
            account: acc.clone(),
        };
        let mut marked = acc;
        marked.has_snapshot = true;
        self.data.accounts.set(i, marked);
        proof {
            assert forall|a: int, b: int|
                at_most_one_active(olds) && 0 <= a < self.accounts().len() && 0 <= b
                    < self.accounts().len() && a != b && #[trigger] self.accounts()[a].is_active
                    && #[trigger] self.accounts()[b].is_active implies self.accounts()[a].plugin_id@
                != self.accounts()[b].plugin_id@ by {
                assert(self.accounts()[a].is_active == olds[a].is_active);
                assert(self.accounts()[b].is_active == olds[b].is_active);
                assert(self.accounts()[a].plugin_id == olds[a].plugin_id);
                assert(self.accounts()[b].plugin_id == olds[b].plugin_id);
            }
        }
        Ok(target)
    }

    /// The flow settings.
    pub fn get_settings(&self) -> (res: &FlowSettings)
        ensures
            *res == self.settings(),
    {
        &self.data.settings
    }

    /// Replaces the flow settings.
    pub fn update_settings(&mut self, settings: FlowSettings)
        ensures
            final(self).dir() == old(self).dir(),
            final(self).accounts() == old(self).accounts(),
            final(self).settings() == settings,
    {
        self.data.settings = settings;
    }

    /// The target of the flow that clears the login state of a plugin, with
    /// a stand-in account created at `created_at`: the account `clear` with
    /// id `__clear__` of the plugin, with no email, note, machine id or
    /// token, never used, inactive and without snapshot, and the snapshot
    /// directory `__clear__`.
    pub fn clear_login_at(&self, plugin: &PluginConfig, created_at: Timestamp) -> (res: FlowTarget)
        ensures
            res.account.id@ == "__clear__"@,
            res.account.name@ == "clear"@,
            res.account.email is None,
            res.account.note is None,
            res.account.plugin_id == plugin.id,
            res.account.bound_machine_id is None,
            res.account.token_enc is None,
            res.account.created_at == created_at,
            res.account.last_used_at is None,
            !res.account.is_active,
            !res.account.has_snapshot,
            res.snapshot_dir.plugin_id == plugin.id,
            res.snapshot_dir.name@ == "__clear__"@,
    {
        let account = Account {
            id: "__clear__".to_owned(),
            name: "clear".to_owned(),
            email: None,
            note: None,
            plugin_id: plugin.id.clone(),
            bound_machine_id: None,
            token_enc: None,
            created_at,
            last_used_at: None,
            is_active: false,
            has_snapshot: false,
        };
        FlowTarget {
            account,
            snapshot_dir: SnapshotDir { plugin_id: plugin.id.clone(), name: "__clear__".to_owned() },
        }
    }

    /// The target of the flow that clears the login state of a plugin, as
    /// `clear_login_at` at the current reading of the system clock; an error
    /// when the clock cannot be read.
    pub fn clear_login(&self, plugin: &PluginConfig) -> (res: Result<FlowTarget, StoreError>)
        ensures
            match res {
                Ok(t) => {
                    &&& t.account.id@ == "__clear__"@
                    &&& t.account.name@ == "clear"@
                    &&& t.account.email is None
                    &&& t.account.note is None
                    &&& t.account.plugin_id == plugin.id
                    &&& t.account.bound_machine_id is None
                    &&& t.account.token_enc is None
                    &&& is_clock_reading(t.account.created_at)
                    &&& t.account.created_at.secs >= 0
                    &&& t.account.created_at.nanos < 1_000_000_000
                    &&& t.account.last_used_at is None
                    &&& !t.account.is_active
                    &&& !t.account.has_snapshot
                    &&& t.snapshot_dir.plugin_id == plugin.id
                    &&& t.snapshot_dir.name@ == "__clear__"@
                },
                Err(e) => e matches StoreError::Other(m) && m@ == clock_unavailable_message(),
            },
    {
        match now_utc() {
            Some(t) => Ok(self.clear_login_at(plugin, t)),
            None => Err(StoreError::Other("无法读取系统时间".to_owned())),
        }
    }

    /// Switches a plugin to an account at time `now`. The plugin's active
    /// account, if it is another one, is marked as having a snapshot and
    /// returned as the target of a backup; every account of the plugin is
    /// made inactive; then the account with `account_id` becomes active, used
    /// at `now`, and is returned as the target of the plugin's switch flow.
    /// When no account has that id the result is `NotFound`, with the earlier
    /// changes made (and `now` unused).
    pub fn switch_account_at(
        &mut self,
        account_id: &str,
        plugin: &PluginConfig,
        now: Timestamp,
    ) -> (res: (Option<FlowTarget>, Result<FlowTarget, StoreError>))
        ensures
            final(self).dir() == old(self).dir(),
            final(self).settings() == old(self).settings(),
            res.0 == switch_backup(old(self).accounts(), plugin.id, account_id@),
            first_index(old(self).accounts(), with_id(account_id@)) < old(self).accounts().len()
                ==> switched_to(
                old(self).accounts(),
                final(self).accounts(),
                plugin.id,
                account_id@,
                now,
                res.1,
            ),
            first_index(old(self).accounts(), with_id(account_id@)) >= old(self).accounts().len()
                ==> {
                &&& res.1 matches Err(StoreError::NotFound(e)) && e@ == account_id@
                &&& final(self).accounts() == switch_deactivated(
                    old(self).accounts(),
                    plugin.id@,
                    account_id@,
                )
            },
            ({
                let t = first_index(old(self).accounts(), with_id(account_id@));
                at_most_one_active(old(self).accounts()) && t < old(self).accounts().len()
                    && old(self).accounts()[t].plugin_id@ == plugin.id@ ==> at_most_one_active(
                    final(self).accounts(),
                )
            }),
    {
        let ghost olds = self.accounts();
        let c = self.find_active(plugin.id.as_str());
        let t = self.find(Ghost(with_id(account_id@)), account_id);
        let mut backup: Option<FlowTarget> = None;
        let ghost mut marked = olds;
        if c < self.data.accounts.len() && !str_eq(self.data.accounts[c].id.as_str(), account_id) {
            let cur = self.data.accounts[c].clone();
            let h = self.find(Ghost(with_id(cur.id@)), cur.id.as_str());
            proof {
                lemma_first_index_bound(olds, with_id(cur.id@), c as int);
            }
            let mut m = self.data.accounts[h].clone();
            m.has_snapshot = true;
            self.data.accounts.set(h, m);
            proof {
                marked = self.accounts();
            }
            backup = Some(
                FlowTarget {
                    snapshot_dir: SnapshotDir { plugin_id: plugin.id.clone(), name: cur.name.clone() },
                    account: cur,
                },
            );
        }
        assert(marked == switch_marked(olds, plugin.id@, account_id@));
        assert(marked.len() == olds.len());
        assert(forall|k: int| 0 <= k < olds.len() ==> #[trigger] marked[k].id == olds[k].id
            && marked[k].name == olds[k].name && marked[k].plugin_id == olds[k].plugin_id
            && marked[k].is_active == olds[k].is_active);
        let ghost off = deactivated(marked, plugin.id@);
        let n = self.data.accounts.len();
        for j in 0..n
            invariant
                n == olds.len(),
                self.dir() == old(self).dir(),
                self.settings() == old(self).settings(),
                self.accounts().len() == n,
                marked.len() == n,
                off == deactivated(marked, plugin.id@),
                forall|k: int| 0 <= k < j ==> #[trigger] self.accounts()[k] == off[k],
                forall|k: int| j <= k < n ==> #[trigger] self.accounts()[k] == marked[k],
        {
            if self.data.accounts[j].plugin_id == plugin.id {
                let mut a = self.data.accounts[j].clone();
                a.is_active = false;
                self.data.accounts.set(j, a);
            }
        }
        assert(self.accounts() =~= off);
        if t >= self.data.accounts.len() {
            return (backup, Err(StoreError::NotFound(account_id.to_owned())));
        }
        let snapshot_dir = SnapshotDir {
            plugin_id: plugin.id.clone(),
            name: self.data.accounts[t].name.clone(),
        };
        let mut a = self.data.accounts[t].clone();
        a.is_active = true;
        a.last_used_at = Some(now);
        self.data.accounts.set(t, a.clone());
        proof {
            let news = self.accounts();
            assert forall|j: int|
                0 <= j < news.len() && #[trigger] news[j].plugin_id@ == plugin.id@
                    && news[j].is_active implies j == t by {
                if j != t {
                    assert(news[j] == off[j]);
                }
            }
            if at_most_one_active(olds) && olds[t as int].plugin_id@ == plugin.id@ {
                assert forall|x: int, y: int|
                    0 <= x < news.len() && 0 <= y < news.len() && x != y
                        && #[trigger] news[x].is_active && #[trigger] news[y].is_active implies news[x].plugin_id@
                    != news[y].plugin_id@ by {
                    if x != t && y != t {
                        assert(news[x] == off[x] && news[y] == off[y]);
                        assert(olds[x].is_active && olds[y].is_active);
                    } else if x == t {
                        assert(news[y] == off[y]);
                    } else {
                        assert(news[x] == off[x]);
                    }
                }
            }
        }
        (backup, Ok(FlowTarget { account: a, snapshot_dir }))
    }

    /// Switches a plugin to an account, as `switch_account_at` at the current
    /// reading of the system clock. The clock is read only when an account
    /// has `account_id`; when it cannot be read, nothing changes and the
    /// result is an error. When no account has that id, the result is
    /// `NotFound`, with the backup mark and the deactivation made.
    pub fn switch_account(&mut self, account_id: &str, plugin: &PluginConfig) -> (res: (
        Option<FlowTarget>,
        Result<FlowTarget, StoreError>,
    ))
        ensures
            final(self).dir() == old(self).dir(),
            final(self).settings() == old(self).settings(),
            first_index(old(self).accounts(), with_id(account_id@)) >= old(self).accounts().len()
                ==> {
                &&& res.0 == switch_backup(old(self).accounts(), plugin.id, account_id@)
                &&& res.1 matches Err(StoreError::NotFound(e)) && e@ == account_id@
                &&& final(self).accounts() == switch_deactivated(
                    old(self).accounts(),
                    plugin.id@,
                    account_id@,
                )
            },
            first_index(old(self).accounts(), with_id(account_id@)) < old(self).accounts().len()
                ==> {
                ||| {
                    &&& res.0 == switch_backup(old(self).accounts(), plugin.id, account_id@)
                    &&& exists|now: Timestamp|
                        #[trigger] is_clock_reading(now) && switched_to(
                            old(self).accounts(),
                            final(self).accounts(),
                            plugin.id,
                            account_id@,
                            now,
                            res.1,
                        )
                }
                ||| {
                    &&& res.1 matches Err(StoreError::Other(m)) && m@ == clock_unavailable_message()
                    &&& res.0 is None
                    &&& final(self).accounts() == old(self).accounts()
                }
            },
            ({
                let t = first_index(old(self).accounts(), with_id(account_id@));
                at_most_one_active(old(self).accounts()) && t < old(self).accounts().len()
                    && old(self).accounts()[t].plugin_id@ == plugin.id@ ==> at_most_one_active(
                    final(self).accounts(),
                )
            }),
    {
        let t = self.find(Ghost(with_id(account_id@)), account_id);
        let now = if t < self.data.accounts.len() {
            match now_utc() {
                Some(n) => n,
                None => return (None, Err(StoreError::Other("无法读取系统时间".to_owned()))),
            }
        } else {
            // No account has the id: the switch ends in `NotFound` and the
            // time is never stored.
            Timestamp { secs: 0, nanos: 0 }
        };
        self.switch_account_at(account_id, plugin, now)
    }
}

} // verus!
