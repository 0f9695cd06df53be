//! Store schema migrations: the registry of version steps, the chain a
//! store at a given version runs through, and the 0.1.0 → 0.2.0 step
//! that turns the boolean `archived` flag of amendments into a
//! structured one.

use vstd::prelude::*;
use crate::issues::append_str;
use crate::text::owned;
use crate::version::{StoreVersion, current_store_version, version_lt, version_text};

verus! {

/// The transformation a migration step applies.
#[derive(Debug, Clone, Copy, PartialEq, Eq, Structural)]
pub enum MigrationStep {
    /// Amendments: `archived: true` becomes `archived: {reason: ...}`,
    /// `archived: false` is dropped.
    ArchivedFlagToDetail,
}

/// One version-to-version step.
#[derive(Debug, Clone, Copy, PartialEq, Eq, Structural)]
pub struct Migration {
    /// Version the step upgrades from.
    pub from: StoreVersion,
    /// Version it upgrades to.
    pub to: StoreVersion,
    /// What it does.
    pub step: MigrationStep,
}

/// The version `major.minor.patch`.
pub open spec fn ver(major: u32, minor: u32, patch: u32) -> StoreVersion {
    StoreVersion { major, minor, patch }
}

/// The registered steps, in version order.
pub open spec fn registry_spec() -> Seq<Migration> {
    seq![Migration { from: ver(0, 1, 0), to: ver(0, 2, 0), step: MigrationStep::ArchivedFlagToDetail }]
}

/// The registered migration steps, in version order.
pub fn registry() -> (r: Vec<Migration>)
    ensures
        r@ == registry_spec(),
{
    let mut r: Vec<Migration> = Vec::new();
    r.push(
        Migration {
            from: StoreVersion::new(0, 1, 0),
            to: StoreVersion::new(0, 2, 0),
            step: MigrationStep::ArchivedFlagToDetail,
        },
    );
    assert(r@ =~= registry_spec());
    r
}

/// Why a store cannot be migrated.
#[derive(Debug, Clone, Copy, PartialEq, Eq, Structural)]
pub enum MigrateError {
    /// The store is newer than this version of the tool.
    Newer {
        /// The store's version.
        on_disk: StoreVersion,
    },
    /// No registered step starts at the store's version.
    Unknown {
        /// The store's version.
        on_disk: StoreVersion,
    },
}

/// The message of a [`MigrateError`].
pub open spec fn migrate_error_text(e: MigrateError) -> Seq<char> {
    let cur = version_text(ver(0, 2, 0));
    match e {
        MigrateError::Newer { on_disk } => "store version "@ + version_text(on_disk)
            + " is newer than this CLI supports ("@ + cur
            + "). Upgrade the `shapes` binary instead of downgrading the store."@,
        MigrateError::Unknown { on_disk } => "unknown store version "@ + version_text(on_disk)
            + ". This CLI knows how to migrate to "@ + cur + " but has no registered step from "@
            + version_text(on_disk) + "."@,
    }
}

impl MigrateError {
    /// The error message.
    pub fn message(&self) -> (r: String)
        ensures
            r@ == migrate_error_text(*self),
    {
        let cur = current_store_version().to_string();
        match self {
            MigrateError::Newer { on_disk } => {
                let mut m = owned("store version ");
                append_str(&mut m, on_disk.to_string().as_str());
                append_str(&mut m, " is newer than this CLI supports (");
                append_str(&mut m, cur.as_str());
                append_str(&mut m, "). Upgrade the `shapes` binary instead of downgrading the store.");
                m
            },
            MigrateError::Unknown { on_disk } => {
                let v = on_disk.to_string();
                let mut m = owned("unknown store version ");
                append_str(&mut m, v.as_str());
                append_str(&mut m, ". This CLI knows how to migrate to ");
                append_str(&mut m, cur.as_str());
                append_str(&mut m, " but has no registered step from ");
                append_str(&mut m, v.as_str());
                append_str(&mut m, ".");
                m
            },
        }
    }
}

/// The registered step starting at `v`, if any.
pub open spec fn step_from(reg: Seq<Migration>, v: StoreVersion) -> Option<Migration>
    decreases reg.len(),
{
    if reg.len() == 0 {
        None
    } else if reg[0].from == v {
        Some(reg[0])
    } else {
        step_from(reg.subrange(1, reg.len() as int), v)
    }
}

/// What a store at version `v` does next: nothing when current, the
/// step starting at `v` when one is registered, an error otherwise.
pub open spec fn next_step(v: StoreVersion) -> Result<Option<Migration>, MigrateError> {
    if v == ver(0, 2, 0) {
        Ok(None)
    } else if version_lt(ver(0, 2, 0), v) {
        Err(MigrateError::Newer { on_disk: v })
    } else {
        match step_from(registry_spec(), v) {
            Some(m) => Ok(Some(m)),
            None => Err(MigrateError::Unknown { on_disk: v }),
        }
    }
}

/// The next migration for a store at version `version`: `None` when it
/// is current, the registered step from its version, or why there is
/// none.
pub fn next_migration(version: StoreVersion) -> (r: Result<Option<Migration>, MigrateError>)
    ensures
        r == next_step(version),
{
    let cur = current_store_version();
    if version.major == cur.major && version.minor == cur.minor && version.patch == cur.patch {
        return Ok(None);
    }
    if cur.is_older_than(&version) {
        return Err(MigrateError::Newer { on_disk: version });
    }
    let reg = registry();
    let mut i: usize = 0;
    assert(reg@.subrange(0, reg@.len() as int) =~= reg@);
    while i < reg.len()
        invariant
            i <= reg.len(),
            reg@ == registry_spec(),
            step_from(registry_spec(), version) == step_from(reg@.subrange(i as int, reg@.len() as int), version),
        decreases reg.len() - i,
    {
        let m = reg[i];
        let ghost rest = reg@.subrange(i as int, reg@.len() as int);
        assert(rest[0] == m);
        assert(rest.subrange(1, rest.len() as int) =~= reg@.subrange(i + 1, reg@.len() as int));
        if m.from.major == version.major && m.from.minor == version.minor && m.from.patch == version.patch {
            return Ok(Some(m));
        }
        i = i + 1;
    }
    Err(MigrateError::Unknown { on_disk: version })
}

/// The chain of steps a store at version `v` runs, in order, to reach the
/// current version.
pub open spec fn chain_from(v: StoreVersion, fuel: nat) -> Result<Seq<Migration>, MigrateError>
    decreases fuel,
{
    match next_step(v) {
        Err(e) => Err(e),
        Ok(None) => Ok(Seq::empty()),
        Ok(Some(m)) => if fuel == 0 {
            Err(MigrateError::Unknown { on_disk: m.to })
        } else {
            match chain_from(m.to, (fuel - 1) as nat) {
                Err(e) => Err(e),
                Ok(rest) => Ok(seq![m] + rest),
            }
        },
    }
}

/// The steps `migrate` runs for a store at version `version`, in order,
/// or why it cannot: the store is newer than this tool, or no step
/// starts at some version on the way.
pub fn run_migrations(version: StoreVersion) -> (r: Result<Vec<Migration>, MigrateError>)
    ensures
        match r {
            Ok(v) => chain_from(version, registry_spec().len()) == Ok::<Seq<Migration>, MigrateError>(v@),
            Err(e) => chain_from(version, registry_spec().len()) == Err::<Seq<Migration>, MigrateError>(e),
        },
{
    proof {
        reveal_with_fuel(chain_from, 2);
    }
    let mut steps: Vec<Migration> = Vec::new();
    assert(steps@ =~= Seq::<Migration>::empty());
    match next_migration(version) {
        Err(e) => Err(e),
        Ok(None) => Ok(steps),
        Ok(Some(m)) => match next_migration(m.to) {
            Err(e) => Err(e),
            Ok(None) => {
                steps.push(m);
                assert(steps@ =~= seq![m] + Seq::<Migration>::empty());
                Ok(steps)
            },
            Ok(Some(m2)) => Err(MigrateError::Unknown { on_disk: m2.to }),
        },
    }
}

/// The registry forms one chain: each step upgrades forward, each starts
/// where the previous one ended, and the last ends at the current
/// version.
pub proof fn law_registry_is_a_forward_chain()
    ensures
        registry_spec().len() > 0,
        forall|i: int| 0 <= i < registry_spec().len() ==> version_lt(registry_spec()[i].from, registry_spec()[i].to),
        forall|i: int| 0 <= i < registry_spec().len() - 1 ==> registry_spec()[i].to == registry_spec()[i + 1].from,
        registry_spec().last().to == ver(0, 2, 0),
{
}

/// Every store older than the current version that sits on the chain is
/// brought to the current version; a current store runs no step.
pub proof fn law_migration_reaches_current()
    ensures
        chain_from(ver(0, 2, 0), registry_spec().len()) == Ok::<Seq<Migration>, MigrateError>(Seq::empty()),
        chain_from(ver(0, 1, 0), registry_spec().len()) matches Ok(s) && s.len() == 1 && s.last().to == ver(0, 2, 0)
            && s[0].from == ver(0, 1, 0),
{
    reveal_with_fuel(chain_from, 2);
    assert(step_from(registry_spec(), ver(0, 1, 0)) == Some(registry_spec()[0]));
    assert(chain_from(ver(0, 2, 0), 0) == Ok::<Seq<Migration>, MigrateError>(Seq::empty()));
}

/// The `archived` field of an amendment file, as the 0.1.0 → 0.2.0 step
/// sees it.
#[derive(Debug)]
pub enum ArchivedField {
    /// No such field, or the file is not a mapping.
    Missing,
    /// A boolean flag.
    Flag(bool),
    /// Already a mapping.
    Detail,
    /// Anything else, with its debug rendering.
    Other(String),
}

/// What the step does to one file.
#[derive(Debug)]
pub enum ArchivedEdit {
    /// Leave the file alone.
    Keep,
    /// Replace the flag with `{reason: <placeholder>}`.
    SetReason(String),
    /// Drop the field.
    Remove,
}

/// One amendment file to migrate.
#[derive(Debug)]
pub struct AmendmentDoc {
    /// The file's path.
    pub path: String,
    /// Its `archived` field.
    pub archived: ArchivedField,
}

/// Outcome of one or more migration steps.
#[derive(Debug)]
pub struct MigrationResult {
    /// Files modified, in traversal order.
    pub changed_files: Vec<String>,
    /// Follow-up actions for the user.
    pub action_items: Vec<String>,
}

/// The reason written into migrated `archived` fields.
pub open spec fn placeholder_reason() -> Seq<char> {
    "Migrated from legacy boolean field — please update"@
}

/// The follow-up action recorded when any file changed.
pub open spec fn review_action() -> Seq<char> {
    "Review and update the `archived.reason` field on each migrated amendment — a placeholder string was inserted and should be replaced with a real explanation of why the amendment was archived."@
}

/// Whether the step changes a file with this field.
pub open spec fn changes(f: ArchivedField) -> bool {
    f matches ArchivedField::Flag(_)
}

/// `e` is the edit the step makes for a file with field `f`.
pub open spec fn edit_is(f: ArchivedField, e: ArchivedEdit) -> bool {
    match f {
        ArchivedField::Missing | ArchivedField::Detail => e is Keep,
        ArchivedField::Flag(true) => e matches ArchivedEdit::SetReason(r) && r@ == placeholder_reason(),
        ArchivedField::Flag(false) => e is Remove,
        ArchivedField::Other(_) => false,
    }
}

/// The paths of the files among `docs` that the step changes.
pub open spec fn changed_paths(docs: Seq<AmendmentDoc>) -> Seq<Seq<char>>
    decreases docs.len(),
{
    if docs.len() == 0 {
        Seq::empty()
    } else if changes(docs.last().archived) {
        changed_paths(docs.drop_last()).push(docs.last().path@)
    } else {
        changed_paths(docs.drop_last())
    }
}

/// The message for a file whose `archived` value the step rejects.
pub open spec fn rejected_text(d: AmendmentDoc) -> Seq<char> {
    match d.archived {
        ArchivedField::Other(dbg) => "unexpected `archived` value in "@ + d.path@ + ": "@ + dbg@
            + " — expected bool or mapping"@,
        _ => Seq::empty(),
    }
}

/// The 0.1.0 → 0.2.0 step over the amendment files in path order: one
/// edit per file, the changed files, and the follow-up action when any
/// changed. A file whose `archived` value is neither a flag nor a mapping
/// stops the step with a message; the edits for the files before it
/// still stand.
pub fn migrate_0_1_to_0_2(docs: &Vec<AmendmentDoc>) -> (r: (Vec<ArchivedEdit>, MigrationResult, Option<String>))
    ensures
        r.0@.len() <= docs@.len(),
        forall|i: int| 0 <= i < r.0@.len() ==> edit_is(docs@[i].archived, #[trigger] r.0@[i]),
        r.2 is None ==> r.0@.len() == docs@.len(),
        r.2 matches Some(m) ==> r.0@.len() < docs@.len() && docs@[r.0@.len() as int].archived is Other
            && m@ == rejected_text(docs@[r.0@.len() as int]),
        r.1.changed_files@.map_values(|p: String| p@) == changed_paths(docs@.take(r.0@.len() as int)),
        r.1.action_items@.map_values(|a: String| a@) == if changed_paths(docs@.take(r.0@.len() as int)).len() > 0 {
            seq![review_action()]
        } else {
            Seq::<Seq<char>>::empty()
        },
{
    let mut edits: Vec<ArchivedEdit> = Vec::new();
    let mut changed: Vec<String> = Vec::new();
    let mut failure: Option<String> = None;
    let mut i: usize = 0;
    assert(docs@.take(0) =~= Seq::<AmendmentDoc>::empty());
    assert(changed@.map_values(|p: String| p@) =~= Seq::<Seq<char>>::empty());
    while i < docs.len()
        invariant_except_break
            failure is None,
        invariant
            i <= docs.len(),
            edits@.len() == i,
            forall|k: int| 0 <= k < i ==> edit_is(docs@[k].archived, #[trigger] edits@[k]),
            changed@.map_values(|p: String| p@) == changed_paths(docs@.take(i as int)),
        ensures
            failure is None ==> i == docs.len(),
            failure matches Some(m) ==> i < docs@.len() && docs@[i as int].archived is Other && m@ == rejected_text(docs@[i as int]),
        decreases docs.len() - i,
    {
        let d = &docs[i];
        assert(docs@.take(i + 1).drop_last() =~= docs@.take(i as int));
        assert(docs@.take(i + 1).last() == docs@[i as int]);
        let ghost before = changed@;
        match &d.archived {
            ArchivedField::Missing | ArchivedField::Detail => {
                edits.push(ArchivedEdit::Keep);
            },
            ArchivedField::Flag(b) => {
                if *b {
                    edits.push(ArchivedEdit::SetReason(owned("Migrated from legacy boolean field — please update")));
                } else {
                    edits.push(ArchivedEdit::Remove);
                }
                changed.push(d.path.clone());
                assert(changed@.map_values(|p: String| p@) =~= before.map_values(|p: String| p@).push(d.path@));
            },
            ArchivedField::Other(dbg) => {
                let mut m = owned("unexpected `archived` value in ");
                append_str(&mut m, d.path.as_str());
                append_str(&mut m, ": ");
                append_str(&mut m, dbg.as_str());
                append_str(&mut m, " — expected bool or mapping");
                failure = Some(m);
                break;
            },
        }
        i = i + 1;
    }
    let mut actions: Vec<String> = Vec::new();
    if changed.len() > 0 {
        actions.push(owned("Review and update the `archived.reason` field on each migrated amendment — a placeholder string was inserted and should be replaced with a real explanation of why the amendment was archived."));
    }
    proof {
        if i == docs.len() {
            assert(docs@.take(i as int) =~= docs@.take(edits@.len() as int));
        }
        assert(actions@.map_values(|a: String| a@) =~= if changed_paths(docs@.take(edits@.len() as int)).len() > 0 {
            seq![review_action()]
        } else {
            Seq::<Seq<char>>::empty()
        });
    }
    (edits, MigrationResult { changed_files: changed, action_items: actions }, failure)
}

} // verus!
