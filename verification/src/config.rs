//! Data directories of a plugin: resolving their paths, the case-insensitive
//! skip list, and the plans that back a directory up into a snapshot and
//! restore it from one.

use vstd::prelude::*;

use crate::plugin::expand_env;
use crate::plugin::expand_env_spec;
use crate::plugin::EnvValues;
use crate::text::lowercase_spec;
use crate::text::contains_ignoring_case;

verus! {

/// Errors of directory handling.
#[derive(Debug)]
pub enum ConfigError {
    /// An I/O operation failed; the text is the system's message.
    Io(String),
    /// A path does not exist.
    NotFound(String),
    /// A text could not be parsed.
    Parse(String),
}

impl ConfigError {
    /// The user-facing message of the error.
    pub open spec fn message_spec(&self) -> Seq<char> {
        match self {
            ConfigError::Io(m) => "IO 错误: "@ + m@,
            ConfigError::NotFound(p) => "路径不存在: "@ + p@,
            ConfigError::Parse(m) => "解析错误: "@ + m@,
        }
    }

    /// The user-facing message of the error.
    pub fn message(&self) -> (res: String)
        ensures
            res@ == self.message_spec(),
    {
        let (prefix, detail) = match self {
            ConfigError::Io(m) => ("IO 错误: ", m),
            ConfigError::NotFound(p) => ("路径不存在: ", p),
            ConfigError::Parse(m) => ("解析错误: ", m),
        };
        let mut res = prefix.to_owned();
        res.append(detail.as_str());
        res
    }
}

/// A data directory of a plugin with its path expanded for this machine.
#[derive(Clone, Debug)]
pub struct ResolvedDataDir {
    /// The path as the plugin writes it, with `%VAR%` placeholders.
    pub raw_path: String,
    /// The path with the placeholders replaced.
    pub expanded: String,
    /// Human-readable label; it also names the directory's part of a snapshot.
    pub label: String,
    /// The only sub-directories that take part in snapshots; all when empty.
    pub include_subdirs: Vec<String>,
}

/// Whether the probe list marks entry `i` as present (entries past its end are absent).
pub open spec fn probe(present: Seq<bool>, i: int) -> bool {
    0 <= i < present.len() && present[i]
}

/// The entries of `names` whose probe is set, in order.
pub open spec fn present_names(names: Seq<String>, present: Seq<bool>) -> Seq<String>
    decreases names.len(),
{
    if names.len() == 0 {
        Seq::empty()
    } else {
        let rest = present_names(names.drop_last(), present);
        if probe(present, names.len() - 1) {
            rest.push(names.last())
        } else {
            rest
        }
    }
}

/// One file-system step of a restore; `None` stands for the directory itself,
/// `Some(s)` for its sub-directory `s`.
#[derive(Clone, Debug)]
pub enum FsOp {
    /// Remove the directory of the data dir recursively; a failure is ignored.
    RemoveAll(Option<String>),
    /// Create the directory of the data dir with its parents.
    CreateAll(Option<String>),
    /// Copy the snapshot's directory recursively into the data dir's one.
    CopyAll(Option<String>),
}

/// The sources that a backup copies: the whole directory when no
/// sub-directories are listed, otherwise each listed sub-directory that exists.
pub open spec fn backup_plan_spec(include_subdirs: Seq<String>, subdir_exists: Seq<bool>) -> Seq<
    Option<String>,
> {
    if include_subdirs.len() == 0 {
        seq![None]
    } else {
        present_names(include_subdirs, subdir_exists).map_values(|s: String| Some(s))
    }
}

/// The removals of the listed sub-directories that exist.
pub open spec fn remove_ops(names: Seq<String>) -> Seq<FsOp>
    decreases names.len(),
{
    if names.len() == 0 {
        Seq::empty()
    } else {
        remove_ops(names.drop_last()).push(FsOp::RemoveAll(Some(names.last())))
    }
}

/// Creation and copy of each sub-directory that the snapshot holds.
pub open spec fn copy_ops(names: Seq<String>) -> Seq<FsOp>
    decreases names.len(),
{
    if names.len() == 0 {
        Seq::empty()
    } else {
        copy_ops(names.drop_last()).push(FsOp::CreateAll(Some(names.last()))).push(
            FsOp::CopyAll(Some(names.last())),
        )
    }
}

/// The steps of a restore from a snapshot that exists: clear what the
/// snapshot replaces (or create the directory), then copy the snapshot in.
pub open spec fn restore_plan_spec(
    include_subdirs: Seq<String>,
    expanded_exists: bool,
    expanded_subdir_exists: Seq<bool>,
    snapshot_subdir_exists: Seq<bool>,
) -> Seq<FsOp> {
    let clear = if expanded_exists {
        if include_subdirs.len() == 0 {
            seq![FsOp::RemoveAll(None), FsOp::CreateAll(None)]
        } else {
            remove_ops(present_names(include_subdirs, expanded_subdir_exists))
        }
    } else {
        seq![FsOp::CreateAll(None)]
    };
    let fill = if include_subdirs.len() == 0 {
        seq![FsOp::CopyAll(None)]
    } else {
        copy_ops(present_names(include_subdirs, snapshot_subdir_exists))
    };
    clear + fill
}

proof fn lemma_present_names_has(names: Seq<String>, present: Seq<bool>, k: int)
    requires
        0 <= k < names.len(),
        k < present.len() && present[k],
    ensures
        exists|m: int|
            0 <= m < present_names(names, present).len() && #[trigger] present_names(
                names,
                present,
            )[m] == names[k],
    decreases names.len(),
{
    let rest = present_names(names.drop_last(), present);
    if k == names.len() - 1 {
        assert(present_names(names, present)[rest.len() as int] == names[k]);
    } else {
        lemma_present_names_has(names.drop_last(), present, k);
        let m = choose|m: int| 0 <= m < rest.len() && #[trigger] rest[m] == names.drop_last()[k];
        assert(present_names(names, present)[m] == names[k]);
    }
}

proof fn lemma_present_names_from(names: Seq<String>, present: Seq<bool>, m: int)
    requires
        0 <= m < present_names(names, present).len(),
    ensures
        exists|k: int|
            0 <= k < names.len() && k < present.len() && present[k] && #[trigger] names[k]
                == present_names(names, present)[m],
    decreases names.len(),
{
    let rest = present_names(names.drop_last(), present);
    if m < rest.len() {
        lemma_present_names_from(names.drop_last(), present, m);
        let k = choose|k: int|
            0 <= k < names.drop_last().len() && k < present.len() && present[k]
                && #[trigger] names.drop_last()[k] == rest[m];
        assert(names[k] == present_names(names, present)[m]);
    } else {
        assert(names[names.len() - 1] == present_names(names, present)[m]);
    }
}

proof fn lemma_copy_ops(names: Seq<String>)
    ensures
        copy_ops(names).len() == 2 * names.len(),
        forall|m: int|
            0 <= m < names.len() ==> #[trigger] copy_ops(names)[2 * m] == FsOp::CreateAll(
                Some(names[m]),
            ) && copy_ops(names)[2 * m + 1] == FsOp::CopyAll(Some(names[m])),
    decreases names.len(),
{
    if names.len() > 0 {
        lemma_copy_ops(names.drop_last());
        assert forall|m: int| 0 <= m < names.len() implies #[trigger] copy_ops(names)[2 * m]
            == FsOp::CreateAll(Some(names[m])) && copy_ops(names)[2 * m + 1] == FsOp::CopyAll(
            Some(names[m]),
        ) by {
            if m < names.len() - 1 {
                assert(copy_ops(names.drop_last())[2 * m] == FsOp::CreateAll(
                    Some(names.drop_last()[m]),
                ));
            }
        }
    }
}

proof fn lemma_remove_ops(names: Seq<String>)
    ensures
        remove_ops(names).len() == names.len(),
        forall|m: int|
            0 <= m < names.len() ==> #[trigger] remove_ops(names)[m] == FsOp::RemoveAll(
                Some(names[m]),
            ),
    decreases names.len(),
{
    if names.len() > 0 {
        lemma_remove_ops(names.drop_last());
        assert forall|m: int| 0 <= m < names.len() implies #[trigger] remove_ops(names)[m]
            == FsOp::RemoveAll(Some(names[m])) by {
            if m < names.len() - 1 {
                assert(remove_ops(names.drop_last())[m] == FsOp::RemoveAll(
                    Some(names.drop_last()[m]),
                ));
            }
        }
    }
}

/// The number of copy steps in a plan.
pub open spec fn copy_count(plan: Seq<FsOp>) -> nat
    decreases plan.len(),
{
    if plan.len() == 0 {
        0
    } else {
        copy_count(plan.drop_last()) + if plan.last() is CopyAll {
            1nat
        } else {
            0nat
        }
    }
}

/// The number of the first `n` probes that are set.
pub open spec fn set_count(probes: Seq<bool>, n: int) -> nat
    decreases n,
{
    if n <= 0 {
        0
    } else {
        set_count(probes, n - 1) + if n - 1 < probes.len() && probes[n - 1] {
            1nat
        } else {
            0nat
        }
    }
}

proof fn lemma_copy_count_add(a: Seq<FsOp>, b: Seq<FsOp>)
    ensures
        copy_count(a + b) == copy_count(a) + copy_count(b),
    decreases b.len(),
{
    if b.len() == 0 {
        assert(a + b =~= a);
    } else {
        lemma_copy_count_add(a, b.drop_last());
        assert((a + b).drop_last() =~= a + b.drop_last());
    }
}

proof fn lemma_copy_count_ops(names: Seq<String>)
    ensures
        copy_count(remove_ops(names)) == 0,
        copy_count(copy_ops(names)) == names.len(),
    decreases names.len(),
{
    if names.len() > 0 {
        lemma_copy_count_ops(names.drop_last());
        let c = copy_ops(names.drop_last()).push(FsOp::CreateAll(Some(names.last())));
        assert(copy_ops(names).drop_last() == c);
        assert(c.drop_last() == copy_ops(names.drop_last()));
        assert(c.last() is CreateAll);
        assert(copy_count(c) == copy_count(copy_ops(names.drop_last())));
        assert(copy_ops(names).last() is CopyAll);
        assert(copy_count(copy_ops(names)) == copy_count(c) + 1);
        assert(remove_ops(names).drop_last() == remove_ops(names.drop_last()));
        assert(remove_ops(names).last() is RemoveAll);
    }
}

proof fn lemma_present_names_len(names: Seq<String>, present: Seq<bool>)
    ensures
        present_names(names, present).len() == set_count(present, names.len() as int),
    decreases names.len(),
{
    if names.len() > 0 {
        lemma_present_names_len(names.drop_last(), present);
    }
}

/// A restore with listed sub-directories copies exactly as many times as
/// the snapshot holds listed sub-directories; without listed
/// sub-directories it copies once, the whole directory.
pub proof fn lemma_restore_copy_count(
    include_subdirs: Seq<String>,
    expanded_exists: bool,
    expanded_subdir_exists: Seq<bool>,
    snapshot_subdir_exists: Seq<bool>,
)
    ensures
        copy_count(
            restore_plan_spec(
                include_subdirs,
                expanded_exists,
                expanded_subdir_exists,
                snapshot_subdir_exists,
            ),
        ) == if include_subdirs.len() == 0 {
            1
        } else {
            set_count(snapshot_subdir_exists, include_subdirs.len() as int)
        },
{
    let removed = present_names(include_subdirs, expanded_subdir_exists);
    let held = present_names(include_subdirs, snapshot_subdir_exists);
    lemma_copy_count_ops(removed);
    lemma_copy_count_ops(held);
    lemma_present_names_len(include_subdirs, snapshot_subdir_exists);
    let clear = if expanded_exists {
        if include_subdirs.len() == 0 {
            seq![FsOp::RemoveAll(None), FsOp::CreateAll(None)]
        } else {
            remove_ops(removed)
        }
    } else {
        seq![FsOp::CreateAll(None)]
    };
    let fill = if include_subdirs.len() == 0 {
        seq![FsOp::CopyAll(None)]
    } else {
        copy_ops(held)
    };
    lemma_copy_count_add(clear, fill);
    assert(restore_plan_spec(
        include_subdirs,
        expanded_exists,
        expanded_subdir_exists,
        snapshot_subdir_exists,
    ) == clear + fill);
    let two = seq![FsOp::RemoveAll(None), FsOp::CreateAll(None)];
    let one_remove = seq![FsOp::RemoveAll(None)];
    let one_create = seq![FsOp::CreateAll(None)];
    let one_copy = seq![FsOp::CopyAll(None)];
    assert(two.drop_last() =~= one_remove);
    assert(one_remove.drop_last() =~= Seq::<FsOp>::empty());
    assert(one_create.drop_last() =~= Seq::<FsOp>::empty());
    assert(one_copy.drop_last() =~= Seq::<FsOp>::empty());
    assert(copy_count(Seq::<FsOp>::empty()) == 0);
    assert(one_remove.last() == FsOp::RemoveAll(None));
    assert(two.last() == FsOp::CreateAll(None));
    assert(one_create.last() == FsOp::CreateAll(None));
    assert(one_copy.last() == FsOp::CopyAll(None));
    assert(copy_count(one_remove) == 0);
    assert(copy_count(two) == 0);
    assert(copy_count(one_create) == 0);
    assert(copy_count(one_copy) == 1);
}

/// A restore from a snapshot brings back everything the snapshot holds.
/// With listed sub-directories, every listed sub-directory whose snapshot
/// copy exists is created and, right after, copied in; every listed
/// sub-directory that exists in the data directory is removed, and all
/// removals come before anything is created or copied; nothing is copied
/// but listed sub-directories that the snapshot holds. Without listed
/// sub-directories the plan ends by copying the whole directory in.
pub proof fn lemma_restore_copies_back(
    include_subdirs: Seq<String>,
    expanded_exists: bool,
    expanded_subdir_exists: Seq<bool>,
    snapshot_subdir_exists: Seq<bool>,
)
    ensures
        ({
            let plan = restore_plan_spec(
                include_subdirs,
                expanded_exists,
                expanded_subdir_exists,
                snapshot_subdir_exists,
            );
            &&& include_subdirs.len() == 0 ==> plan.len() > 0 && plan.last() == FsOp::CopyAll(None)
            &&& include_subdirs.len() > 0 ==> forall|k: int|
                0 <= k < include_subdirs.len() && k < snapshot_subdir_exists.len()
                    && #[trigger] snapshot_subdir_exists[k] ==> exists|j: int|
                    0 <= j && j + 1 < plan.len() && #[trigger] plan[j] == FsOp::CreateAll(
                        Some(include_subdirs[k]),
                    ) && plan[j + 1] == FsOp::CopyAll(Some(include_subdirs[k]))
            &&& include_subdirs.len() > 0 && expanded_exists ==> forall|k: int|
                0 <= k < include_subdirs.len() && k < expanded_subdir_exists.len()
                    && #[trigger] expanded_subdir_exists[k] ==> exists|j: int|
                    0 <= j < plan.len() && #[trigger] plan[j] == FsOp::RemoveAll(
                        Some(include_subdirs[k]),
                    )
            &&& forall|j1: int, j2: int|
                0 <= j1 < plan.len() && 0 <= j2 < plan.len() && #[trigger] plan[j1] is RemoveAll
                    && !(#[trigger] plan[j2] is RemoveAll) ==> j1 < j2
            &&& forall|j: int|
                0 <= j < plan.len() ==> (#[trigger] plan[j] matches FsOp::CopyAll(Some(s))
                    ==> exists|k: int|
                    0 <= k < include_subdirs.len() && k < snapshot_subdir_exists.len()
                        && snapshot_subdir_exists[k] && #[trigger] include_subdirs[k] == s)
        }),
{
    let plan = restore_plan_spec(
        include_subdirs,
        expanded_exists,
        expanded_subdir_exists,
        snapshot_subdir_exists,
    );
    let removed = present_names(include_subdirs, expanded_subdir_exists);
    let held = present_names(include_subdirs, snapshot_subdir_exists);
    lemma_remove_ops(removed);
    lemma_copy_ops(held);
    let clear = if expanded_exists {
        if include_subdirs.len() == 0 {
            seq![FsOp::RemoveAll(None), FsOp::CreateAll(None)]
        } else {
            remove_ops(removed)
        }
    } else {
        seq![FsOp::CreateAll(None)]
    };
    let fill = if include_subdirs.len() == 0 {
        seq![FsOp::CopyAll(None)]
    } else {
        copy_ops(held)
    };
    assert(plan == clear + fill);
    assert forall|j: int| 0 <= j < fill.len() implies !(#[trigger] fill[j] is RemoveAll) by {
        if include_subdirs.len() > 0 {
            let m = j / 2;
            assert(j == 2 * m || j == 2 * m + 1);
            assert(copy_ops(held)[2 * m] == FsOp::CreateAll(Some(held[m])));
        }
    }
    if include_subdirs.len() > 0 {
        assert forall|k: int|
            0 <= k < include_subdirs.len() && k < snapshot_subdir_exists.len()
                && #[trigger] snapshot_subdir_exists[k] implies exists|j: int|
            0 <= j && j + 1 < plan.len() && #[trigger] plan[j] == FsOp::CreateAll(
                Some(include_subdirs[k]),
            ) && plan[j + 1] == FsOp::CopyAll(Some(include_subdirs[k])) by {
            lemma_present_names_has(include_subdirs, snapshot_subdir_exists, k);
            let m = choose|m: int| 0 <= m < held.len() && #[trigger] held[m] == include_subdirs[k];
            assert(copy_ops(held)[2 * m] == FsOp::CreateAll(Some(held[m])));
            assert(plan[clear.len() + 2 * m] == fill[2 * m]);
            assert(plan[clear.len() + 2 * m + 1] == fill[2 * m + 1]);
        }
        if expanded_exists {
            assert forall|k: int|
                0 <= k < include_subdirs.len() && k < expanded_subdir_exists.len()
                    && #[trigger] expanded_subdir_exists[k] implies exists|j: int|
                0 <= j < plan.len() && #[trigger] plan[j] == FsOp::RemoveAll(
                    Some(include_subdirs[k]),
                ) by {
                lemma_present_names_has(include_subdirs, expanded_subdir_exists, k);
                let m = choose|m: int|
                    0 <= m < removed.len() && #[trigger] removed[m] == include_subdirs[k];
                assert(remove_ops(removed)[m] == FsOp::RemoveAll(Some(removed[m])));
                assert(plan[m] == clear[m]);
            }
        }
    }
    assert forall|j1: int, j2: int|
        0 <= j1 < plan.len() && 0 <= j2 < plan.len() && #[trigger] plan[j1] is RemoveAll && !(
        #[trigger] plan[j2] is RemoveAll) implies j1 < j2 by {
        if j1 >= clear.len() {
            assert(plan[j1] == fill[j1 - clear.len()]);
        }
        if expanded_exists && include_subdirs.len() > 0 && j2 < clear.len() {
            assert(remove_ops(removed)[j2] == FsOp::RemoveAll(Some(removed[j2])));
        }
        if !expanded_exists {
            assert(j1 >= clear.len() || plan[j1] == clear[j1]);
        }
    }
    assert forall|j: int| 0 <= j < plan.len() implies (#[trigger] plan[j] matches FsOp::CopyAll(
        Some(s),
    ) ==> exists|k: int|
        0 <= k < include_subdirs.len() && k < snapshot_subdir_exists.len()
            && snapshot_subdir_exists[k] && #[trigger] include_subdirs[k] == s) by {
        if j < clear.len() {
            assert(plan[j] == clear[j]);
            if expanded_exists && include_subdirs.len() > 0 {
                assert(remove_ops(removed)[j] == FsOp::RemoveAll(Some(removed[j])));
            }
        } else {
            let i = j - clear.len();
            assert(plan[j] == fill[i]);
            if include_subdirs.len() > 0 {
                let m = i / 2;
                assert(i == 2 * m || i == 2 * m + 1);
                assert(0 <= m < held.len());
                assert(copy_ops(held)[2 * m + 1] == FsOp::CopyAll(Some(held[m])));
                assert(copy_ops(held)[2 * m] == FsOp::CreateAll(Some(held[m])));
                lemma_present_names_from(include_subdirs, snapshot_subdir_exists, m);
            }
        }
    }
}

/// The entries of `names` whose probe is set, in order.
fn present_subset(names: &Vec<String>, present: &Vec<bool>) -> (res: Vec<String>)
    ensures
        res@ == present_names(names@, present@),
{
    let mut res: Vec<String> = Vec::new();
    for i in 0..names.len()
        invariant
            res@ == present_names(names@.take(i as int), present@),
    {
        assert(names@.take(i + 1).drop_last() =~= names@.take(i as int));
        if i < present.len() && present[i] {
            res.push(names[i].clone());
        }
    }
    assert(names@.take(names@.len() as int) =~= names@);
    res
}

impl ResolvedDataDir {
    /// Resolves a data directory of a plugin: its path with the environment
    /// placeholders expanded from `env`.
    pub fn resolve(raw_path: &str, label: &str, include_subdirs: &[String], env: &EnvValues) -> (res:
        Self)
        ensures
            res.raw_path@ == raw_path@,
            res.expanded@ == expand_env_spec(raw_path@, *env),
            res.label@ == label@,
            res.include_subdirs@ == include_subdirs@,
    {
        let expanded = expand_env(raw_path, env);
        let mut subdirs: Vec<String> = Vec::new();
        for i in 0..include_subdirs.len()
            invariant
                subdirs@ == include_subdirs@.take(i as int),
        {
            subdirs.push(include_subdirs[i].clone());
            assert(subdirs@ =~= include_subdirs@.take(i + 1));
        }
        assert(include_subdirs@.take(include_subdirs@.len() as int) =~= include_subdirs@);
        ResolvedDataDir {
            raw_path: raw_path.to_owned(),
            expanded,
            label: label.to_owned(),
            include_subdirs: subdirs,
        }
    }

    /// The directories in which a `storage.json` is looked for: the
    /// directory itself when no sub-directories are listed (`None`),
    /// otherwise each listed sub-directory.
    pub fn search_dirs(&self) -> (res: Vec<Option<String>>)
        ensures
            res@ == if self.include_subdirs@.len() == 0 {
                seq![None]
            } else {
                self.include_subdirs@.map_values(|s: String| Some(s))
            },
    {
        let mut res: Vec<Option<String>> = Vec::new();
        if self.include_subdirs.len() == 0 {
            res.push(None);
            assert(res@ =~= seq![None]);
            return res;
        }
        for i in 0..self.include_subdirs.len()
            invariant
                res@ == self.include_subdirs@.take(i as int).map_values(|s: String| Some(s)),
        {
            res.push(Some(self.include_subdirs[i].clone()));
            assert(res@ =~= self.include_subdirs@.take(i + 1).map_values(|s: String| Some(s)));
        }
        assert(self.include_subdirs@.take(self.include_subdirs@.len() as int)
            =~= self.include_subdirs@);
        res
    }

    /// What a backup of this (existing) directory copies, given which listed
    /// sub-directories exist: `None` is the whole directory, filtered by the
    /// skip list; `Some(s)` is sub-directory `s`, copied to the same name.
    pub fn backup_plan(&self, subdir_exists: &Vec<bool>) -> (res: Vec<Option<String>>)
        ensures
            res@ == backup_plan_spec(self.include_subdirs@, subdir_exists@),
    {
        if self.include_subdirs.len() == 0 {
            let mut res: Vec<Option<String>> = Vec::new();
            res.push(None);
            assert(res@ =~= seq![None]);
            return res;
        }
        let present = present_subset(&self.include_subdirs, subdir_exists);
        let mut res: Vec<Option<String>> = Vec::new();
        for i in 0..present.len()
            invariant
                res@ == present@.take(i as int).map_values(|s: String| Some(s)),
        {
            res.push(Some(present[i].clone()));
            assert(res@ =~= present@.take(i + 1).map_values(|s: String| Some(s)));
        }
        assert(present@.take(present@.len() as int) =~= present@);
        res
    }

    /// The steps that restore this directory from a snapshot that exists,
    /// given whether the directory exists, which listed sub-directories of it
    /// exist, and which of them the snapshot holds.
    pub fn restore_plan(
        &self,
        expanded_exists: bool,
        expanded_subdir_exists: &Vec<bool>,
        snapshot_subdir_exists: &Vec<bool>,
    ) -> (res: Vec<FsOp>)
        ensures
            res@ == restore_plan_spec(
                self.include_subdirs@,
                expanded_exists,
                expanded_subdir_exists@,
                snapshot_subdir_exists@,
            ),
    {
        let whole = self.include_subdirs.len() == 0;
        let mut res: Vec<FsOp> = Vec::new();
        if expanded_exists {
            if whole {
                res.push(FsOp::RemoveAll(None));
                res.push(FsOp::CreateAll(None));
            } else {
                let present = present_subset(&self.include_subdirs, expanded_subdir_exists);
                for i in 0..present.len()
                    invariant
                        res@ == remove_ops(present@.take(i as int)),
                {
                    assert(present@.take(i + 1).drop_last() =~= present@.take(i as int));
                    res.push(FsOp::RemoveAll(Some(present[i].clone())));
                }
                assert(present@.take(present@.len() as int) =~= present@);
            }
        } else {
            res.push(FsOp::CreateAll(None));
        }
        let ghost clear = res@;
        if whole {
            res.push(FsOp::CopyAll(None));
        } else {
            let present = present_subset(&self.include_subdirs, snapshot_subdir_exists);
            for i in 0..present.len()
                invariant
                    res@ == clear + copy_ops(present@.take(i as int)),
            {
                assert(present@.take(i + 1).drop_last() =~= present@.take(i as int));
                res.push(FsOp::CreateAll(Some(present[i].clone())));
                res.push(FsOp::CopyAll(Some(present[i].clone())));
            }
            assert(present@.take(present@.len() as int) =~= present@);
        }
        assert(res@ =~= restore_plan_spec(
            self.include_subdirs@,
            expanded_exists,
            expanded_subdir_exists@,
            snapshot_subdir_exists@,
        ));
        res
    }
}

/// Whether a directory entry is skipped: some item of `skip_items` equals
/// `name` once both are lowercased.
pub fn should_skip(name: &str, skip_items: &[String]) -> (res: bool)
    ensures
        res == exists|i: int|
            0 <= i < skip_items@.len() && #[trigger] lowercase_spec(skip_items@[i]@)
                == lowercase_spec(name@),
{
    contains_ignoring_case(skip_items, name)
}

} // verus!
