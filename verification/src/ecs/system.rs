//! Systems, stages, and the scheduler that runs them.

use vstd::prelude::*;

use super::resources::Resources;
use super::world::World;

verus! {

/// A lifecycle stage for running ECS systems.
#[derive(Debug, Clone, Copy, PartialEq, Eq, Structural, Hash)]
pub enum SystemStage {
    /// Runs before anything else each frame.
    PreUpdate,
    /// Runs on a fixed timestep (e.g. physics).
    FixedUpdate,
    /// Runs every frame with variable delta time.
    Update,
    /// Runs after Update.
    LateUpdate,
    /// Runs during rendering with interpolation alpha.
    Render,
}

/// The number of stages.
pub const STAGE_COUNT: usize = 5;

/// The slot of a stage in the scheduler, in lifecycle order.
pub open spec fn stage_index(stage: SystemStage) -> int {
    match stage {
        SystemStage::PreUpdate => 0,
        SystemStage::FixedUpdate => 1,
        SystemStage::Update => 2,
        SystemStage::LateUpdate => 3,
        SystemStage::Render => 4,
    }
}

fn stage_slot(stage: SystemStage) -> (r: usize)
    ensures
        r == stage_index(stage),
        r < STAGE_COUNT,
{
    match stage {
        SystemStage::PreUpdate => 0,
        SystemStage::FixedUpdate => 1,
        SystemStage::Update => 2,
        SystemStage::LateUpdate => 3,
        SystemStage::Render => 4,
    }
}

/// Logic that operates on the world and its resources.
pub trait System: Send + Sync {
    /// How many times this system has run.
    spec fn times_run(&self) -> nat;

    /// Execute the system logic; the run is counted.
    fn run(&mut self, world: &mut World, resources: &mut Resources)
        ensures
            final(self).times_run() == old(self).times_run() + 1,
    ;
}

/// A system wrapping a named closure.
struct SystemFn<F> {
    name: String,
    f: F,
    /// How many times the closure was called.
    calls: Ghost<nat>,
    /// The stamps of the scheduled runs.
    stamped: Ghost<Seq<nat>>,
}

/// Runs the user's system closure (`FnMut::call_mut`). Nothing is promised of
/// what it does to the world and the resources.
#[verifier::external_body]
fn run_system_closure<F: FnMut(&mut World, &mut Resources)>(
    f: &mut F,
    world: &mut World,
    resources: &mut Resources,
) {
    f(world, resources)
}

impl<F: FnMut(&mut World, &mut Resources) + Send + Sync> System for SystemFn<F> {
    closed spec fn times_run(&self) -> nat {
        self.calls@
    }

    /// Calls the closure once, and counts the call.
    fn run(&mut self, world: &mut World, resources: &mut Resources) {
        run_system_closure(&mut self.f, world, resources);
        self.calls = Ghost(self.calls@ + 1);
    }
}

/// Counts the system runs a scheduler makes; each run takes the next stamp.
struct RunClock {
    ticks: Ghost<nat>,
}

impl RunClock {
    /// The stamp the next run takes.
    spec fn now(&self) -> nat {
        self.ticks@
    }

    fn tick(&mut self)
        ensures
            final(self).now() == old(self).now() + 1,
    {
        self.ticks = Ghost(self.ticks@ + 1);
    }
}

/// A system as the scheduler runs it: each run is recorded with the stamp
/// the clock gave it.
trait Scheduled: Send + Sync {
    /// How many times the system has run.
    spec fn times_ran(&self) -> nat;

    /// The stamps of the runs so far, oldest first.
    spec fn stamps(&self) -> Seq<nat>;

    fn run_stamped(&mut self, world: &mut World, resources: &mut Resources, clock: &mut RunClock)
        ensures
            final(self).times_ran() == old(self).times_ran() + 1,
            final(self).stamps() == old(self).stamps().push(old(clock).now()),
            final(clock).now() == old(clock).now() + 1,
    ;
}

impl<F: FnMut(&mut World, &mut Resources) + Send + Sync> Scheduled for SystemFn<F> {
    closed spec fn times_ran(&self) -> nat {
        self.calls@
    }

    closed spec fn stamps(&self) -> Seq<nat> {
        self.stamped@
    }

    /// Runs the system and records the run with the clock's stamp.
    fn run_stamped(&mut self, world: &mut World, resources: &mut Resources, clock: &mut RunClock) {
        let ghost stamped = self.stamped@;
        self.run(world, resources);
        self.stamped = Ghost(stamped.push(clock.now()));
        clock.tick();
    }
}

/// A registered system behind dynamic dispatch (`Box<dyn Scheduled>`).
struct BoxedSystem {
    inner: Box<dyn Scheduled>,
}

impl BoxedSystem {
    /// How many times the boxed system has run.
    spec fn times_run(&self) -> nat {
        self.inner.times_ran()
    }

    /// The stamps of the boxed system's runs.
    spec fn stamps(&self) -> Seq<nat> {
        self.inner.stamps()
    }

    /// Boxes a system as a trait object.
    fn new<S: Scheduled + 'static>(system: S) -> BoxedSystem {
        BoxedSystem { inner: Box::new(system) }
    }

    /// Runs the boxed system once, stamped by the clock.
    fn run(&mut self, world: &mut World, resources: &mut Resources, clock: &mut RunClock)
        ensures
            final(self).times_run() == old(self).times_run() + 1,
            final(self).stamps() == old(self).stamps().push(old(clock).now()),
            final(clock).now() == old(clock).now() + 1,
    {
        self.inner.run_stamped(world, resources, clock)
    }
}

/// Schedules and runs ECS systems in defined stages.
pub struct SystemScheduler {
    /// Registered systems, by stage slot, in registration order.
    stages: Vec<Vec<BoxedSystem>>,
    /// The stamp of the next system run.
    clock: RunClock,
}

/// How `run_stage` changes a scheduler: every system of `stage` runs once,
/// the one at position `j` as the `j`-th run of the stage (its new stamp is
/// the number of runs made before the stage plus `j`); the stage makes as
/// many runs as it has systems, and the systems of other stages do not run.
pub open spec fn ran_stage(before: SystemScheduler, after: SystemScheduler, stage: SystemStage) -> bool {
    &&& forall|s: SystemStage| #[trigger] after.system_count(s) == before.system_count(s)
    &&& after.runs_made() == before.runs_made() + before.system_count(stage)
    &&& forall|j: int|
        0 <= j < before.system_count(stage) ==> #[trigger] after.run_stamps(stage, j)
            == before.run_stamps(stage, j).push((before.runs_made() + j) as nat)
    &&& forall|s: SystemStage, j: int|
        s != stage && 0 <= j < before.system_count(s) ==> #[trigger] after.run_stamps(s, j)
            == before.run_stamps(s, j)
}

/// A stage's systems run in registration order, each once: after a run of
/// `stage`, each of its systems has exactly one more run, and a system
/// registered earlier ran before every system registered after it, the
/// first one being the first run the stage made.
pub proof fn lemma_stage_runs_in_registration_order(
    before: SystemScheduler,
    after: SystemScheduler,
    stage: SystemStage,
    j1: int,
    j2: int,
)
    requires
        ran_stage(before, after, stage),
        0 <= j1 < j2 < before.system_count(stage),
    ensures
        after.run_stamps(stage, j1).len() == before.run_stamps(stage, j1).len() + 1,
        after.run_stamps(stage, j2).len() == before.run_stamps(stage, j2).len() + 1,
        after.run_stamps(stage, j1).last() < after.run_stamps(stage, j2).last(),
        after.run_stamps(stage, 0).last() == before.runs_made(),
        after.run_stamps(stage, j2).last() < after.runs_made(),
{
    assert(after.run_stamps(stage, j1) == before.run_stamps(stage, j1).push((before.runs_made() + j1) as nat));
    assert(after.run_stamps(stage, j2) == before.run_stamps(stage, j2).push((before.runs_made() + j2) as nat));
    assert(after.run_stamps(stage, 0) == before.run_stamps(stage, 0).push(before.runs_made()));
}

impl SystemScheduler {
    /// The scheduler's invariant: one list per stage.
    pub closed spec fn wf(&self) -> bool {
        self.stages@.len() == STAGE_COUNT
    }

    /// How many systems are registered for `stage`.
    pub closed spec fn system_count(&self, stage: SystemStage) -> nat {
        self.stages@[stage_index(stage)]@.len()
    }

    /// How many times the system at position `j` of `stage` has run.
    pub closed spec fn times_run(&self, stage: SystemStage, j: int) -> nat {
        self.stages@[stage_index(stage)]@[j].times_run()
    }

    /// How many system runs the scheduler has made.
    pub closed spec fn runs_made(&self) -> nat {
        self.clock.now()
    }

    /// The stamps of the runs of the system at position `j` of `stage`: for
    /// each run, the number of runs the scheduler had made before it.
    pub closed spec fn run_stamps(&self, stage: SystemStage, j: int) -> Seq<nat> {
        self.stages@[stage_index(stage)]@[j].stamps()
    }

    /// Create an empty scheduler.
    pub fn new() -> (s: Self)
        ensures
            s.wf(),
            forall|stage: SystemStage| #[trigger] s.system_count(stage) == 0,
    {
        let mut stages: Vec<Vec<BoxedSystem>> = Vec::new();
        for i in 0..STAGE_COUNT
            invariant
                stages@.len() == i,
                forall|j: int| 0 <= j < i ==> (#[trigger] stages@[j])@.len() == 0,
        {
            stages.push(Vec::new());
        }
        SystemScheduler { stages, clock: RunClock { ticks: Ghost(0) } }
    }

    /// Add a named system to a stage, after the systems already there.
    pub fn add_system<F: FnMut(&mut World, &mut Resources) + Send + Sync + 'static>(
        &mut self,
        stage: SystemStage,
        name: &str,
        system: F,
    )
        requires
            old(self).wf(),
        ensures
            final(self).wf(),
            final(self).system_count(stage) == old(self).system_count(stage) + 1,
            forall|other: SystemStage|
                other != stage ==> #[trigger] final(self).system_count(other) == old(self).system_count(
                    other,
                ),
            forall|s: SystemStage, j: int|
                0 <= j < old(self).system_count(s) ==> #[trigger] final(self).times_run(s, j)
                    == old(self).times_run(s, j),
            forall|s: SystemStage, j: int|
                0 <= j < old(self).system_count(s) ==> #[trigger] final(self).run_stamps(s, j)
                    == old(self).run_stamps(s, j),
            final(self).runs_made() == old(self).runs_made(),
    {
        let slot = stage_slot(stage);
        let boxed = BoxedSystem::new(SystemFn { name: name.to_string(), f: system, calls: Ghost(0), stamped: Ghost(Seq::empty()) });
        let mut list: Vec<BoxedSystem> = Vec::new();
        std::mem::swap(&mut list, &mut self.stages[slot]);
        list.push(boxed);
        self.stages.set(slot, list);
        assert forall|other: SystemStage| other != stage implies #[trigger] self.system_count(other)
            == old(self).system_count(other) by {
            assert(stage_index(other) != stage_index(stage));
        }
    }

    /// Run the systems registered for `stage`, in registration order, each
    /// once. Systems of other stages do not run.
    pub fn run_stage(&mut self, stage: SystemStage, world: &mut World, resources: &mut Resources)
        requires
            old(self).wf(),
        ensures
            final(self).wf(),
            forall|s: SystemStage| #[trigger] final(self).system_count(s) == old(self).system_count(s),
            forall|j: int|
                0 <= j < old(self).system_count(stage) ==> #[trigger] final(self).times_run(stage, j)
                    == old(self).times_run(stage, j) + 1,
            forall|s: SystemStage, j: int|
                s != stage && 0 <= j < old(self).system_count(s) ==> #[trigger] final(self).times_run(
                    s,
                    j,
                ) == old(self).times_run(s, j),
            ran_stage(*old(self), *final(self), stage),
    {
        let slot = stage_slot(stage);
        let mut list: Vec<BoxedSystem> = Vec::new();
        std::mem::swap(&mut list, &mut self.stages[slot]);
        let ghost before = list@;
        let ghost c0 = self.clock.now();
        let ghost mid = self.stages@;
        let m = list.len();
        for j in 0..m
            invariant
                self.stages@ == mid,
                mid.len() == STAGE_COUNT,
                slot == stage_index(stage),
                slot < STAGE_COUNT,
                m == list@.len(),
                m == before.len(),
                self.clock.now() == c0 + j,
                forall|jj: int| 0 <= jj < j ==> #[trigger] list@[jj].times_run() == before[jj].times_run() + 1,
                forall|jj: int| j <= jj < m ==> #[trigger] list@[jj].times_run() == before[jj].times_run(),
                forall|jj: int|
                    0 <= jj < j ==> #[trigger] list@[jj].stamps() == before[jj].stamps().push(
                        (c0 + jj) as nat,
                    ),
                forall|jj: int| j <= jj < m ==> #[trigger] list@[jj].stamps() == before[jj].stamps(),
        {
            list[j].run(world, resources, &mut self.clock);
        }
        self.stages.set(slot, list);
        assert forall|s: SystemStage, j: int|
            s != stage && 0 <= j < old(self).system_count(s) implies #[trigger] self.run_stamps(s, j)
                == old(self).run_stamps(s, j) by {
            assert(stage_index(s) != stage_index(stage));
        }
        assert forall|s: SystemStage| #[trigger] self.system_count(s) == old(self).system_count(s) by {
        }
        assert forall|s: SystemStage, j: int|
            s != stage && 0 <= j < old(self).system_count(s) implies #[trigger] self.times_run(s, j)
                == old(self).times_run(s, j) by {
            assert(stage_index(s) != stage_index(stage));
        }
    }
}

impl Default for SystemScheduler {
    /// A scheduler with no system.
    fn default() -> (s: Self)
        ensures
            s.wf(),
            forall|stage: SystemStage| #[trigger] s.system_count(stage) == 0,
    {
        Self::new()
    }
}

} // verus!
