//! Schema versioning of the storage engine: when a migration runs, and what
//! a migration's outcome does to the recorded schema version. The SQL
//! connection itself belongs to the engine around this state.

use vstd::prelude::*;

verus! {

/// A migration that failed and was rolled back.
#[derive(Debug, Clone, Copy, PartialEq, Eq, Structural)]
pub struct MigrationRollback {
    /// Source schema version.
    pub from: u32,
    /// Target schema version that failed.
    pub to: u32,
}

/// The schema version a storage engine is at.
#[derive(Debug, Clone, Copy, PartialEq, Eq, Structural)]
pub struct SchemaState {
    /// Highest migration version applied so far (0 when none).
    pub version: u32,
}

/// Whether migrating a schema at `version` to `target` runs the migration.
pub open spec fn runs_migration(version: u32, target: u32) -> bool {
    version < target
}

/// The schema version after migrating from `version` to `target`, where
/// `committed` says whether the migration, if it ran, committed.
pub open spec fn version_after(version: u32, target: u32, committed: bool) -> u32 {
    if runs_migration(version, target) && committed {
        target
    } else {
        version
    }
}

impl SchemaState {
    /// The state of a database whose highest recorded version is `recorded`
    /// (`None` when no migration was ever recorded).
    pub fn from_recorded(recorded: Option<u32>) -> (r: Self)
        ensures
            r.version == (match recorded {
                Some(v) => v,
                None => 0,
            }),
    {
        match recorded {
            Some(v) => SchemaState { version: v },
            None => SchemaState { version: 0 },
        }
    }

    /// Whether a migration to `target` has to run: only when the schema is
    /// older than the target. Otherwise migrating is a no-op that succeeds.
    pub fn needs_migration(&self, target: u32) -> (r: bool)
        ensures
            r == runs_migration(self.version, target),
    {
        self.version < target
    }

    /// Record the outcome of a migration to `target` that was run: on commit
    /// the schema moves to `target`; on failure it stays where it was and the
    /// rollback is reported.
    pub fn finish_migration(&mut self, target: u32, committed: bool) -> (r: Result<
        (),
        MigrationRollback,
    >)
        requires
            old(self).version < target,
        ensures
            final(self).version == version_after(old(self).version, target, committed),
            committed ==> r is Ok && final(self).version == target,
            !committed ==> r == Err::<(), MigrationRollback>(
                MigrationRollback { from: old(self).version, to: target },
            ) && final(self).version == old(self).version,
    {
        if committed {
            self.version = target;
            Ok(())
        } else {
            Err(MigrationRollback { from: self.version, to: target })
        }
    }
}

/// Migrating is idempotent: once a migration to `target` has been applied
/// (committed or found unnecessary), migrating to `target` again does not run
/// the migration and leaves the schema version where it is, whatever that
/// second run would have done.
pub proof fn lemma_migration_idempotent(version: u32, target: u32, first: bool, second: bool)
    requires
        first || !runs_migration(version, target),
    ensures
        !runs_migration(version_after(version, target, first), target),
        version_after(version_after(version, target, first), target, second) == version_after(
            version,
            target,
            first,
        ),
{
}

} // verus!
