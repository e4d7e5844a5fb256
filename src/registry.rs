//! The committed schema of one tenant, and the apply operation that moves it
//! to a newly declared set of types, one apply at a time.

use vstd::prelude::*;
use crate::apply::{plan_migration, schema_diff, step_safety, MigrationStep, Safety};
use crate::types::{valid_types, validate_types, EntityType};

verus! {

#[derive(Clone, Copy, Debug, PartialEq, Eq, Structural)]
pub enum ApplyError {
    /// The declaration is malformed (duplicate type or field names).
    Invalid,
    /// The plan holds a destructive step that was not confirmed, or a new
    /// required field with no default to fill existing rows.
    Rejected,
    /// Another apply is running for this tenant.
    Conflict,
    /// The version counter cannot advance any further.
    VersionExhausted,
}

/// What a successful apply reports: the current version afterwards and the
/// planned steps.
#[derive(Clone, Debug)]
pub struct ApplyOutcome {
    pub version: u64,
    pub steps: Vec<MigrationStep>,
}

/// One committed migration, kept for audit.
#[derive(Clone, Debug)]
pub struct Migration {
    /// The version it produced.
    pub version: u64,
    pub steps: Vec<MigrationStep>,
    /// When it was applied, as the caller's clock gave it.
    pub applied_at: u64,
}

/// The committed schema of one tenant.
#[derive(Clone, Debug)]
pub struct Registry {
    pub version: u64,
    pub types: Vec<EntityType>,
    /// Held for the duration of one apply.
    pub applying: bool,
    /// Every committed migration, oldest first.
    pub history: Vec<Migration>,
}

fn copy_steps(steps: &Vec<MigrationStep>) -> (r: Vec<MigrationStep>)
    ensures
        r@ == steps@,
{
    let mut out: Vec<MigrationStep> = Vec::new();
    let mut i: usize = 0;
    while i < steps.len()
        invariant
            i <= steps@.len(),
            out@ == steps@.subrange(0, i as int),
        decreases steps.len() - i,
    {
        out.push(steps[i]);
        i = i + 1;
        assert(out@ =~= steps@.subrange(0, i as int));
    }
    assert(steps@.subrange(0, steps@.len() as int) == steps@);
    out
}

/// A plan may proceed when no step needs a backfill and every destructive
/// step is confirmed.
pub open spec fn plan_accepted(steps: Seq<MigrationStep>, confirm_destructive: bool) -> bool {
    forall|i: int|
        0 <= i < steps.len() ==> step_safety(#[trigger] steps[i]) != Safety::RequiresBackfill && (
        confirm_destructive || step_safety(steps[i]) != Safety::Destructive)
}

/// Whether an apply may start now.
pub open spec fn can_begin(r: Registry) -> bool {
    !r.applying
}

pub open spec fn begun(r: Registry) -> Registry {
    Registry { applying: true, ..r }
}

/// Why committing `declared` onto `r` fails, if it does.
pub open spec fn commit_error(r: Registry, declared: Seq<EntityType>, confirm_destructive: bool, dry_run: bool) -> Option<ApplyError> {
    let steps = schema_diff(r.types@, declared);
    if !valid_types(declared) {
        Some(ApplyError::Invalid)
    } else if !plan_accepted(steps, confirm_destructive) {
        Some(ApplyError::Rejected)
    } else if !dry_run && steps.len() > 0 && r.version == u64::MAX {
        Some(ApplyError::VersionExhausted)
    } else {
        None
    }
}

/// Whether committing `declared` onto `r` installs a new version.
pub open spec fn advances(r: Registry, declared: Seq<EntityType>, confirm_destructive: bool, dry_run: bool) -> bool {
    commit_error(r, declared, confirm_destructive, dry_run) is None && !dry_run && schema_diff(r.types@, declared).len() > 0
}

/// `after` holds the history of `before` and one more migration: the one
/// from `before`'s types to `after`'s, at the new version and time `at`.
pub open spec fn recorded(before: Registry, after: Registry, at: u64) -> bool {
    &&& after.history@.len() == before.history@.len() + 1
    &&& forall|i: int| 0 <= i < before.history@.len() ==> #[trigger] after.history@[i] == before.history@[i]
    &&& after.history@.last().version == after.version
    &&& after.history@.last().steps@ == schema_diff(before.types@, after.types@)
    &&& after.history@.last().applied_at == at
}

impl Registry {
    /// A registry with no types at version zero.
    pub fn new() -> (r: Registry)
        ensures
            r.version == 0,
            r.types@.len() == 0,
            !r.applying,
            r.history@.len() == 0,
    {
        Registry { version: 0, types: Vec::new(), applying: false, history: Vec::new() }
    }

    /// Takes the apply lock, or fails at once when it is held.
    pub fn begin_apply(&mut self) -> (r: Result<(), ApplyError>)
        ensures
            r is Ok <==> can_begin(*old(self)),
            r is Ok ==> *final(self) == begun(*old(self)),
            r is Err ==> r == Err::<(), ApplyError>(ApplyError::Conflict) && *final(self) == *old(self),
    {
        if self.applying {
            Err(ApplyError::Conflict)
        } else {
            self.applying = true;
            Ok(())
        }
    }

    /// Validates `declared`, plans the migration from the committed types,
    /// and, unless `dry_run`, commits it and records it in the history with
    /// time `applied_at`; then releases the apply lock. The version advances
    /// only when the plan holds at least one step.
    pub fn commit_apply(&mut self, declared: Vec<EntityType>, confirm_destructive: bool, dry_run: bool, applied_at: u64) -> (r: Result<ApplyOutcome, ApplyError>)
        requires
            old(self).applying,
        ensures
            !final(self).applying,
            match commit_error(*old(self), declared@, confirm_destructive, dry_run) {
                Some(e) => r == Err::<ApplyOutcome, ApplyError>(e),
                None => r is Ok,
            },
            advances(*old(self), declared@, confirm_destructive, dry_run) ==> final(self).version == old(self).version + 1
                && final(self).types@ == declared@ && recorded(*old(self), *final(self), applied_at),
            !advances(*old(self), declared@, confirm_destructive, dry_run) ==> final(self).version == old(self).version
                && final(self).types@ == old(self).types@ && final(self).history@ == old(self).history@,
            r matches Ok(o) ==> o.version == final(self).version && o.steps@ == schema_diff(old(self).types@, declared@),
    {
        self.applying = false;
        if !validate_types(&declared) {
            return Err(ApplyError::Invalid);
        }
        let steps = plan_migration(&self.types, &declared);
        let mut i: usize = 0;
        while i < steps.len()
            invariant
                i <= steps@.len(),
                !self.applying,
                self.version == old(self).version,
                self.types@ == old(self).types@,
                self.history@ == old(self).history@,
                valid_types(declared@),
                steps@ == schema_diff(old(self).types@, declared@),
                forall|k: int|
                    0 <= k < i ==> step_safety(#[trigger] steps@[k]) != Safety::RequiresBackfill && (
                    confirm_destructive || step_safety(steps@[k]) != Safety::Destructive),
            decreases steps.len() - i,
        {
            let s = steps[i].safety();
            if s == Safety::RequiresBackfill || (!confirm_destructive && s == Safety::Destructive) {
                return Err(ApplyError::Rejected);
            }
            i = i + 1;
        }
        if dry_run || steps.len() == 0 {
            return Ok(ApplyOutcome { version: self.version, steps });
        }
        if self.version == u64::MAX {
            return Err(ApplyError::VersionExhausted);
        }
        self.version = self.version + 1;
        self.types = declared;
        self.history.push(Migration { version: self.version, steps: copy_steps(&steps), applied_at });
        Ok(ApplyOutcome { version: self.version, steps })
    }

    /// Runs one whole apply under the lock: fails with `Conflict` when
    /// another apply holds it.
    pub fn apply(&mut self, declared: Vec<EntityType>, confirm_destructive: bool, dry_run: bool, applied_at: u64) -> (r: Result<ApplyOutcome, ApplyError>)
        ensures
            !can_begin(*old(self)) ==> r == Err::<ApplyOutcome, ApplyError>(ApplyError::Conflict) && *final(self) == *old(self),
            can_begin(*old(self)) ==> {
                &&& !final(self).applying
                &&& match commit_error(*old(self), declared@, confirm_destructive, dry_run) {
                    Some(e) => r == Err::<ApplyOutcome, ApplyError>(e),
                    None => r is Ok,
                }
                &&& advances(*old(self), declared@, confirm_destructive, dry_run) ==> final(self).version
                    == old(self).version + 1 && final(self).types@ == declared@ && recorded(
                    *old(self),
                    *final(self),
                    applied_at,
                )
                &&& !advances(*old(self), declared@, confirm_destructive, dry_run) ==> final(self).version
                    == old(self).version && final(self).types@ == old(self).types@ && final(self).history@
                    == old(self).history@
                &&& r matches Ok(o) ==> o.version == final(self).version && o.steps@ == schema_diff(
                    old(self).types@,
                    declared@,
                )
            },
    {
        match self.begin_apply() {
            Err(e) => Err(e),
            Ok(()) => self.commit_apply(declared, confirm_destructive, dry_run, applied_at),
        }
    }
}

/// Of two applies that race for the lock of one tenant, exactly one
/// proceeds: once the first has begun the second cannot, and what the
/// first commits depends on its own declaration alone.
pub proof fn lemma_one_apply_at_a_time(r: Registry, declared: Seq<EntityType>, confirm_destructive: bool, dry_run: bool)
    requires
        can_begin(r),
    ensures
        !can_begin(begun(r)),
        begun(r).version == r.version,
        begun(r).types == r.types,
        commit_error(begun(r), declared, confirm_destructive, dry_run) == commit_error(r, declared, confirm_destructive, dry_run),
        advances(begun(r), declared, confirm_destructive, dry_run) == advances(r, declared, confirm_destructive, dry_run),
{
}

} // verus!
