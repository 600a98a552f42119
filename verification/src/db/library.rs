//! Schema migrations of the library database: which migration scripts run, and what is
//! recorded after each.
use vstd::prelude::*;

verus! {

/// The next step of bringing the schema up to date.
#[derive(Debug, Clone, Copy, PartialEq, Eq, Structural)]
pub enum MigrationStep {
    /// Run the migration script with this index.
    RunBatch(usize),
    /// Record this schema version.
    SetVersion(i32),
    /// Fill in the normalised names of the name rows that have none.
    NormalizeNames,
    /// Nothing is left to do: the schema went from version `from` to version `to`, and
    /// `updated` tells whether these differ.
    Done { from: i32, to: i32, updated: bool },
}

/// The names are normalised right after the schema reaches version 3.
pub open spec fn normalize_after(version: int) -> Seq<MigrationStep> {
    if version == 3 {
        seq![MigrationStep::NormalizeNames]
    } else {
        Seq::empty()
    }
}

/// The steps that remain at schema version `version`, for a schema found at version
/// `initial` and `total` migration scripts: each script from `version` on runs and its
/// version is recorded, then the run ends.
pub open spec fn migration_plan(initial: i32, version: int, total: int) -> Seq<MigrationStep>
    decreases total - version,
{
    if version < total {
        seq![MigrationStep::RunBatch(version as usize), MigrationStep::SetVersion((version + 1) as i32)]
            + normalize_after(version + 1) + migration_plan(initial, version + 1, total)
    } else {
        seq![
            MigrationStep::Done { from: initial, to: version as i32, updated: initial < version },
        ]
    }
}

/// Where a migration run stands.
#[derive(Debug, Clone, Copy, PartialEq, Eq, Structural)]
pub enum MigrationPhase {
    /// About to decide whether another script runs.
    Check,
    /// A script ran; its version is to be recorded.
    AfterBatch,
    /// A version was recorded.
    AfterSet,
    /// The run is over.
    Finished,
}

/// A migration run in progress.
pub struct Migrator {
    initial: i32,
    version: i32,
    total: i32,
    phase: MigrationPhase,
}

impl Migrator {
    #[verifier::type_invariant]
    closed spec fn inv(self) -> bool {
        &&& 0 <= self.initial <= self.version
        &&& (self.version <= self.total || self.version == self.initial)
        &&& (self.phase == MigrationPhase::AfterBatch ==> self.version < self.total)
    }

    /// The steps still to come.
    pub closed spec fn remaining(self) -> Seq<MigrationStep> {
        match self.phase {
            MigrationPhase::Check => migration_plan(self.initial, self.version as int, self.total as int),
            MigrationPhase::AfterBatch => seq![MigrationStep::SetVersion((self.version + 1) as i32)]
                + normalize_after(self.version + 1) + migration_plan(
                self.initial,
                self.version + 1,
                self.total as int,
            ),
            MigrationPhase::AfterSet => normalize_after(self.version as int) + migration_plan(
                self.initial,
                self.version as int,
                self.total as int,
            ),
            MigrationPhase::Finished => Seq::empty(),
        }
    }

    /// A run over `total` scripts for a schema whose recorded version is `stored`; a version
    /// that cannot be read counts as 0.
    pub fn start(stored: Option<i32>, total: usize) -> (r: Migrator)
        requires
            stored matches Some(v) ==> v >= 0,
            total <= i32::MAX,
        ensures
            r.remaining() == migration_plan(
                stored.unwrap_or(0),
                stored.unwrap_or(0) as int,
                total as int,
            ),
    {
        let initial = match stored {
            Some(v) => v,
            None => 0,
        };
        Migrator { initial, version: initial, total: total as i32, phase: MigrationPhase::Check }
    }

    /// Whether the run is over.
    pub fn is_finished(&self) -> (r: bool)
        ensures
            r == (self.remaining().len() == 0),
    {
        proof {
            use_type_invariant(self);
            self.lemma_plan_nonempty();
        }
        match self.phase {
            MigrationPhase::Finished => true,
            _ => false,
        }
    }

    proof fn lemma_plan_nonempty(self)
        ensures
            self.phase != MigrationPhase::Finished ==> self.remaining().len() > 0,
    {
        lemma_plan_len(self.initial, self.version as int, self.total as int);
        lemma_plan_len(self.initial, self.version + 1, self.total as int);
    }

    fn check(&mut self) -> (r: MigrationStep)
        requires
            old(self).phase == MigrationPhase::Check || old(self).phase == MigrationPhase::AfterSet,
            0 <= old(self).initial <= old(self).version,
            old(self).version <= old(self).total || old(self).version == old(self).initial,
        ensures
            final(self).initial == old(self).initial,
            final(self).total == old(self).total,
            final(self).version == old(self).version,
            migration_plan(old(self).initial, old(self).version as int, old(self).total as int)
                == seq![r] + final(self).remaining(),
            0 <= final(self).initial <= final(self).version,
            final(self).version <= final(self).total || final(self).version == final(self).initial,
            final(self).phase == MigrationPhase::AfterBatch ==> final(self).version < final(self).total,
    {
        if self.version < self.total {
            self.phase = MigrationPhase::AfterBatch;
            let step = MigrationStep::RunBatch(self.version as usize);
            assert(migration_plan(self.initial, self.version as int, self.total as int)
                =~= seq![step] + self.remaining());
            step
        } else {
            self.phase = MigrationPhase::Finished;
            let step = MigrationStep::Done {
                from: self.initial,
                to: self.version,
                updated: self.initial < self.version,
            };
            assert(migration_plan(self.initial, self.version as int, self.total as int)
                =~= seq![step] + self.remaining());
            step
        }
    }

    /// The next step of the run.
    pub fn next(&mut self) -> (r: MigrationStep)
        requires
            old(self).remaining().len() > 0,
        ensures
            old(self).remaining() == seq![r] + final(self).remaining(),
    {
        proof {
            use_type_invariant(&*self);
        }
        match self.phase {
            MigrationPhase::Check => self.check(),
            MigrationPhase::AfterBatch => {
                let version: i32 = self.version + 1;
                *self = Migrator {
                    initial: self.initial,
                    version,
                    total: self.total,
                    phase: MigrationPhase::AfterSet,
                };
                let step = MigrationStep::SetVersion(self.version);
                assert(old(self).remaining() =~= seq![step] + self.remaining());
                step
            },
            MigrationPhase::AfterSet => {
                if self.version == 3 {
                    self.phase = MigrationPhase::Check;
                    let step = MigrationStep::NormalizeNames;
                    assert(old(self).remaining() =~= seq![step] + self.remaining());
                    step
                } else {
                    let step = self.check();
                    assert(old(self).remaining() =~= seq![step] + self.remaining());
                    step
                }
            },
            MigrationPhase::Finished => MigrationStep::NormalizeNames,
        }
    }
}

/// The indices of the scripts that a sequence of steps runs, in order.
pub open spec fn batches(steps: Seq<MigrationStep>) -> Seq<int>
    decreases steps.len(),
{
    if steps.len() == 0 {
        Seq::empty()
    } else {
        match steps[0] {
            MigrationStep::RunBatch(i) => seq![i as int] + batches(steps.drop_first()),
            _ => batches(steps.drop_first()),
        }
    }
}

/// How many times a sequence of steps normalises the names.
pub open spec fn normalizations(steps: Seq<MigrationStep>) -> nat
    decreases steps.len(),
{
    if steps.len() == 0 {
        0
    } else {
        match steps[0] {
            MigrationStep::NormalizeNames => 1 + normalizations(steps.drop_first()),
            _ => normalizations(steps.drop_first()),
        }
    }
}

proof fn lemma_batches_append(a: Seq<MigrationStep>, b: Seq<MigrationStep>)
    ensures
        batches(a + b) == batches(a) + batches(b),
        normalizations(a + b) == normalizations(a) + normalizations(b),
    decreases a.len(),
{
    if a.len() == 0 {
        assert(a + b =~= b);
    } else {
        lemma_batches_append(a.drop_first(), b);
        assert((a + b).drop_first() =~= a.drop_first() + b);
    }
}

/// Bringing a schema from version `initial` up over `total` scripts runs each script from
/// index `initial` to `total - 1` exactly once and in order, normalises the names once if
/// the schema crosses version 3 and never otherwise, and ends at version
/// `max(initial, total)`, reporting an update exactly when scripts ran.
pub proof fn lemma_migration_plan(initial: i32, version: int, total: int)
    requires
        0 <= version,
        total <= i32::MAX,
    ensures
        batches(migration_plan(initial, version, total)) == Seq::new(
            if version < total { (total - version) as nat } else { 0 },
            |i: int| version + i,
        ),
        normalizations(migration_plan(initial, version, total)) == if version < 3 <= total {
            1nat
        } else {
            0nat
        },
        migration_plan(initial, version, total).last() == (MigrationStep::Done {
            from: initial,
            to: (if version < total { total } else { version }) as i32,
            updated: initial < (if version < total { total } else { version }),
        }),
    decreases total - version,
{
    let plan = migration_plan(initial, version, total);
    reveal_with_fuel(batches, 3);
    reveal_with_fuel(normalizations, 3);
    if version < total {
        let head = seq![MigrationStep::RunBatch(version as usize), MigrationStep::SetVersion((version + 1) as i32)]
            + normalize_after(version + 1);
        let rest = migration_plan(initial, version + 1, total);
        lemma_migration_plan(initial, version + 1, total);
        lemma_plan_len(initial, version + 1, total);
        lemma_batches_append(head, rest);
        let h1 = head.drop_first();
        let h2 = h1.drop_first();
        assert(h2 =~= normalize_after(version + 1));
        assert((version as usize) as int == version);
        assert(head[0] == MigrationStep::RunBatch(version as usize));
        assert(h1[0] == MigrationStep::SetVersion((version + 1) as i32));
        if version + 1 == 3 {
            assert(h2[0] == MigrationStep::NormalizeNames);
            assert(h2.drop_first() =~= Seq::<MigrationStep>::empty());
            assert(batches(h2) == batches(h2.drop_first()));
            assert(normalizations(h2) == 1 + normalizations(h2.drop_first()));
        } else {
            assert(h2 =~= Seq::<MigrationStep>::empty());
        }
        assert(batches(h2) =~= Seq::<int>::empty());
        assert(batches(h1) == batches(h2));
        assert(normalizations(h1) == normalizations(h2));
        assert(normalizations(head) == normalizations(h1));
        assert(batches(head) == seq![version] + batches(h1));
        assert(batches(head) =~= seq![version]);
        assert(batches(plan) =~= Seq::new((total - version) as nat, |i: int| version + i));
    } else {
        assert(plan.drop_first() =~= Seq::<MigrationStep>::empty());
        assert(batches(plan) =~= Seq::<int>::empty());
    }
}

/// Right after each script runs, the version one past the script's index is recorded.
pub proof fn lemma_migration_plan_records_versions(initial: i32, version: int, total: int)
    requires
        0 <= version,
        total <= i32::MAX,
    ensures
        forall|k: int|
            #![trigger migration_plan(initial, version, total)[k]]
            0 <= k < migration_plan(initial, version, total).len() && migration_plan(
                initial,
                version,
                total,
            )[k] is RunBatch ==> k + 1 < migration_plan(initial, version, total).len()
                && migration_plan(initial, version, total)[k + 1] == MigrationStep::SetVersion(
                (migration_plan(initial, version, total)[k]->RunBatch_0 + 1) as i32,
            ),
    decreases total - version,
{
    let plan = migration_plan(initial, version, total);
    if version < total {
        let head = seq![MigrationStep::RunBatch(version as usize), MigrationStep::SetVersion((version + 1) as i32)]
            + normalize_after(version + 1);
        let rest = migration_plan(initial, version + 1, total);
        lemma_migration_plan_records_versions(initial, version + 1, total);
        assert(plan == head + rest);
        assert((version as usize) as int == version);
        assert forall|k: int|
            0 <= k < plan.len() && #[trigger] plan[k] is RunBatch implies k + 1 < plan.len()
                && plan[k + 1] == MigrationStep::SetVersion((plan[k]->RunBatch_0 + 1) as i32) by {
            if k >= head.len() {
                let j = k - head.len();
                assert(plan[k] == rest[j]);
                assert(rest[j] is RunBatch);
                assert(plan[k + 1] == rest[j + 1]);
            } else if k >= 1 {
                assert(plan[k] == head[k]);
                if k >= 2 {
                    assert(head[k] == MigrationStep::NormalizeNames);
                }
            }
        }
    } else {
        assert(plan.len() == 1);
        assert(plan[0] is Done);
    }
}

proof fn lemma_plan_len(initial: i32, version: int, total: int)
    ensures
        migration_plan(initial, version, total).len() > 0,
    decreases total - version,
{
    if version < total {
        lemma_plan_len(initial, version + 1, total);
    }
}

} // verus!
