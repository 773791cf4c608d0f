//! The v1 to v2 policy migration: a dry-run plan, then an apply that needs
//! confirmation, an unchanged base and a faithful backup.

use vstd::prelude::*;
use vstd::string::*;

use crate::text::{content_address, content_hash, decimal, decimal_string, is_content_hash};

verus! {

/// Idempotent result of applying a migration.
#[derive(Debug, Clone, Copy, PartialEq, Eq, Structural)]
pub enum PolicyMigrationOutcome {
    /// A backup was made and v2 activated.
    Applied,
    /// The intended v2 contents were already active.
    AlreadyApplied,
}

/// Failure of planning or applying a migration.
#[derive(Debug, Clone, PartialEq, Eq)]
pub enum PolicyMigrationError {
    /// Confirmation is missing.
    NotConfirmed,
    /// The active policy changed after the dry run.
    BaseConflict,
    /// A backup already exists with other bytes.
    BackupConflict,
}

/// Immutable plan computed without writing.
#[derive(Debug, Clone)]
pub struct PolicyMigration {
    path: String,
    backup: String,
    source: Vec<u8>,
    source_hash: String,
    migrated: Vec<u8>,
    migrated_hash: String,
    diff: String,
}

/// What an apply does next.
#[derive(Debug, Clone, Copy, PartialEq, Eq, Structural)]
pub enum MigrationStep {
    /// Nothing to write: the migrated policy is already active.
    Done,
    /// Make sure the backup holds the v1 bytes, then write v2.
    BackupThenWrite,
}

/// The dry-run diff: versions, number of legacy models, and both content hashes.
pub open spec fn diff_text(legacy_models: nat, source: Seq<u8>, migrated: Seq<u8>) -> Seq<char> {
    "schema_version: 1 -> 2\nlegacy_models: "@ + decimal(legacy_models) + "\nsource: "@ + content_address(source)
        + "\nresult: "@ + content_address(migrated)
}

impl PolicyMigration {
    /// Plans a migration from the v1 bytes read at `path` to the v2 bytes
    /// serialised from the migrated policy, with the backup location beside it.
    pub fn new(path: String, backup: String, source: Vec<u8>, migrated: Vec<u8>, legacy_models: u64) -> (m: PolicyMigration)
        ensures
            m.path() == path@,
            m.backup() == backup@,
            m.source() == source@,
            m.migrated() == migrated@,
            m.source_hash() == content_address(source@),
            m.migrated_hash() == content_address(migrated@),
            m.diff_spec() == diff_text(legacy_models as nat, source@, migrated@),
            m.wf(),
    {
        let source_hash = content_hash(source.as_slice());
        let migrated_hash = content_hash(migrated.as_slice());
        proof {
            reveal_strlit("schema_version: 1 -> 2\nlegacy_models: ");
            reveal_strlit("\nsource: ");
            reveal_strlit("\nresult: ");
        }
        let mut diff = String::from_str("schema_version: 1 -> 2\nlegacy_models: ");
        let count = decimal_string(legacy_models);
        diff.append(count.as_str());
        diff.append("\nsource: ");
        diff.append(source_hash.as_str());
        diff.append("\nresult: ");
        diff.append(migrated_hash.as_str());
        PolicyMigration { path, backup, source, source_hash, migrated, migrated_hash, diff }
    }

    /// The policy file.
    pub closed spec fn path(&self) -> Seq<char> {
        self.path@
    }

    /// The backup file.
    pub closed spec fn backup(&self) -> Seq<char> {
        self.backup@
    }

    /// The v1 bytes.
    pub closed spec fn source(&self) -> Seq<u8> {
        self.source@
    }

    /// The v2 bytes.
    pub closed spec fn migrated(&self) -> Seq<u8> {
        self.migrated@
    }

    /// Content hash of the v1 bytes.
    pub closed spec fn source_hash(&self) -> Seq<char> {
        self.source_hash@
    }

    /// Content hash of the v2 bytes.
    pub closed spec fn migrated_hash(&self) -> Seq<char> {
        self.migrated_hash@
    }

    /// The dry-run diff.
    pub closed spec fn diff_spec(&self) -> Seq<char> {
        self.diff@
    }

    /// The plan's hashes are the content addresses of its bytes.
    pub closed spec fn wf(&self) -> bool {
        &&& self.source_hash@ == content_address(self.source@)
        &&& self.migrated_hash@ == content_address(self.migrated@)
    }

    /// Deterministic diff of the dry run.
    pub fn diff(&self) -> (d: &str)
        ensures
            d@ == self.diff_spec(),
    {
        self.diff.as_str()
    }

    /// The policy file.
    pub fn path_text(&self) -> (p: &str)
        ensures
            p@ == self.path(),
    {
        self.path.as_str()
    }

    /// The backup file.
    pub fn backup_text(&self) -> (p: &str)
        ensures
            p@ == self.backup(),
    {
        self.backup.as_str()
    }

    /// The v2 bytes to write.
    pub fn migrated_bytes(&self) -> (b: &[u8])
        ensures
            b@ == self.migrated(),
    {
        self.migrated.as_slice()
    }

    /// The v1 bytes the backup must hold.
    pub fn source_bytes(&self) -> (b: &[u8])
        ensures
            b@ == self.source(),
    {
        self.source.as_slice()
    }

    /// Decides an apply from the bytes currently at the policy path: already
    /// migrated is done whatever the confirmation; otherwise confirmation is
    /// required and the base must still be the planned v1.
    pub fn check_apply(&self, current: &[u8], confirmed: bool) -> (r: Result<MigrationStep, PolicyMigrationError>)
        ensures
            content_address(current@) == self.migrated_hash() ==> r == Ok::<MigrationStep, PolicyMigrationError>(MigrationStep::Done),
            content_address(current@) != self.migrated_hash() && !confirmed ==> r == Err::<MigrationStep, PolicyMigrationError>(PolicyMigrationError::NotConfirmed),
            content_address(current@) != self.migrated_hash() && confirmed && content_address(current@) != self.source_hash()
                ==> r == Err::<MigrationStep, PolicyMigrationError>(PolicyMigrationError::BaseConflict),
            content_address(current@) != self.migrated_hash() && confirmed && content_address(current@) == self.source_hash()
                ==> r == Ok::<MigrationStep, PolicyMigrationError>(MigrationStep::BackupThenWrite),
    {
        let current_hash = content_hash(current);
        if current_hash == self.migrated_hash {
            return Ok(MigrationStep::Done);
        }
        if !confirmed {
            return Err(PolicyMigrationError::NotConfirmed);
        }
        if current_hash != self.source_hash {
            return Err(PolicyMigrationError::BaseConflict);
        }
        Ok(MigrationStep::BackupThenWrite)
    }

    /// Decides from what the backup location holds: the v1 bytes already
    /// (nothing to write), other bytes (conflict), or nothing (write it).
    pub fn check_backup(&self, existing: Option<&[u8]>) -> (r: Result<bool, PolicyMigrationError>)
        ensures
            existing is None ==> r == Ok::<bool, PolicyMigrationError>(true),
            existing matches Some(b) ==> (if b@ == self.source() {
                r == Ok::<bool, PolicyMigrationError>(false)
            } else {
                r == Err::<bool, PolicyMigrationError>(PolicyMigrationError::BackupConflict)
            }),
    {
        match existing {
            None => Ok(true),
            Some(b) => {
                if same_bytes(b, self.source.as_slice()) {
                    Ok(false)
                } else {
                    Err(PolicyMigrationError::BackupConflict)
                }
            },
        }
    }
}

/// Whether two byte strings are equal.
pub fn same_bytes(a: &[u8], b: &[u8]) -> (r: bool)
    ensures
        r == (a@ == b@),
{
    if a.len() != b.len() {
        return false;
    }
    let mut i: usize = 0;
    while i < a.len()
        invariant
            a@.len() == b@.len(),
            i <= a@.len(),
            forall|j: int| 0 <= j < i ==> a@[j] == b@[j],
        decreases a@.len() - i,
    {
        if a[i] != b[i] {
            return false;
        }
        i = i + 1;
    }
    assert(a@ =~= b@);
    true
}

/// Applying is idempotent: once the policy file holds the migrated bytes, a
/// further apply, confirmed or not, has nothing to write.
pub proof fn law_second_apply_writes_nothing(m: PolicyMigration, current: Seq<u8>)
    requires
        m.wf(),
        current == m.migrated(),
    ensures
        content_address(current) == m.migrated_hash(),
{
}

} // verus!
