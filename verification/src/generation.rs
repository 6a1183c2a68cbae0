//! The driver of the pipeline. It owns the viewport tracker, the debouncer
//! and the result collector and runs them in a fixed order: the host calls
//! [`GenerationPlugin::trigger_generate`] and then
//! [`GenerationPlugin::generation`] once per tick, reports with
//! [`GenerationPlugin::spawned`] when it has done what a new generation
//! asks for, and hands every result of its worker pool to
//! [`GenerationPlugin::deliver`].

use crate::debounce::{DebounceStep, Debouncer};
use crate::grid::Grid;
use crate::lifecycle::{HostAction, Lifecycle, LifecycleView};
use crate::scheduler::{
    lemma_viewport_zoom_maps_grid, plan_tasks, spec_task, spec_tasks, CellResult,
};
use crate::viewport::{
    Observation, PipelineError, ViewportReading, ViewportSize, ViewportTracker,
};
use crate::zoom::ZoomWindow;
use vstd::prelude::*;

verus! {

/// The one-shot command that asks for a regeneration: a mailbox with a single
/// slot.
#[derive(Clone, Copy, Debug, PartialEq, Eq, Structural)]
pub enum GenerateCommand {
    /// Nothing is asked for.
    Idle,
    /// The debouncer fired and the grid has not been regenerated since.
    Fired,
}

impl GenerateCommand {
    /// Posts the command. A command that is already there is not doubled.
    pub fn post(&mut self)
        ensures
            *final(self) == GenerateCommand::Fired,
    {
        *self = GenerateCommand::Fired;
    }

    /// Looks for the command and clears the slot in the same step, so that
    /// the command is seen once.
    pub fn take(&mut self) -> (fired: bool)
        ensures
            fired == (*old(self) == GenerateCommand::Fired),
            *final(self) == GenerateCommand::Idle,
    {
        let fired = match *self {
            GenerateCommand::Fired => true,
            GenerateCommand::Idle => false,
        };
        *self = GenerateCommand::Idle;
        fired
    }
}

/// The driver as the contracts see it.
pub struct PluginView {
    pub tracker: ViewportTracker,
    pub debouncer: Debouncer,
    pub command: GenerateCommand,
    pub lifecycle: LifecycleView,
    pub cell_size: u32,
}

/// The submissions of a generation: one unit of work for each cell of the
/// viewport's grid, mapped through the viewport's window.
pub open spec fn spec_submissions(viewport: ViewportSize, cell_size: u32, id: u64) -> Seq<
    HostAction,
> {
    let grid = Grid::spec_partition(viewport, cell_size);
    match ZoomWindow::spec_from_viewport(viewport) {
        Some(zoom) => Seq::new(
            grid.spec_cell_count() as nat,
            |k: int| HostAction::SubmitTask(spec_task(grid, zoom, id, k)),
        ),
        None => Seq::empty(),
    }
}

impl PluginView {
    /// What a tick reports: whether it posted the command, or why the
    /// pipeline cannot start.
    pub open spec fn trigger_result(self, reading: Option<ViewportReading>, delta: u64) -> Result<
        bool,
        PipelineError,
    > {
        match self.tracker.spec_observe(reading) {
            Err(e) => Err(e),
            Ok(Observation::Skipped) => Ok(false),
            Ok(Observation::Changed(_)) => Ok(false),
            Ok(Observation::Unchanged) => Ok(self.debouncer.is_due(delta)),
        }
    }

    /// The debouncer after a tick. A tick without a viewport leaves it as it
    /// is; a size change re-arms it; any other tick counts its time.
    pub open spec fn trigger_debouncer(self, reading: Option<ViewportReading>, delta: u64)
        -> Debouncer {
        match self.tracker.spec_observe(reading) {
            Err(_) => self.debouncer,
            Ok(Observation::Skipped) => self.debouncer,
            Ok(Observation::Changed(_)) => self.debouncer.after_step(
                DebounceStep { delta, size_changed: true },
            ),
            Ok(Observation::Unchanged) => self.debouncer.after_step(
                DebounceStep { delta, size_changed: false },
            ),
        }
    }

    /// The command slot after a tick.
    pub open spec fn trigger_command(self, reading: Option<ViewportReading>, delta: u64)
        -> GenerateCommand {
        if self.trigger_result(reading, delta) == Ok::<bool, PipelineError>(true) {
            GenerateCommand::Fired
        } else {
            self.command
        }
    }

    /// The grid that a regeneration would build now.
    pub open spec fn next_grid(self) -> Grid {
        Grid::spec_partition(self.tracker.last().physical, self.cell_size)
    }
}

/// The driver of the regeneration pipeline.
#[derive(Debug)]
pub struct GenerationPlugin {
    tracker: ViewportTracker,
    debouncer: Debouncer,
    command: GenerateCommand,
    lifecycle: Lifecycle,
    cell_size: u32,
}

impl View for GenerationPlugin {
    type V = PluginView;

    closed spec fn view(&self) -> PluginView {
        PluginView {
            tracker: self.tracker,
            debouncer: self.debouncer,
            command: self.command,
            lifecycle: self.lifecycle@,
            cell_size: self.cell_size,
        }
    }
}

impl GenerationPlugin {
    /// The driver is well formed when its collector is.
    pub closed spec fn wf(&self) -> bool {
        self.lifecycle.wf()
    }

    /// What `wf` means to a caller.
    pub proof fn lemma_wf(&self)
        requires
            self.wf(),
        ensures
            self@.lifecycle.wf(),
            self@.lifecycle.next_id <= u64::MAX,
    {
        self.lifecycle.lemma_wf();
    }

    /// A driver at startup: no viewport was seen, the debouncer is armed so
    /// that a first grid is generated, no command is posted and no
    /// generation exists.
    pub fn init(cell_size: u32) -> (plugin: GenerationPlugin)
        ensures
            plugin.wf(),
            plugin@.cell_size == cell_size,
            !plugin@.tracker.has_seen(),
            plugin@.tracker.last().physical == (ViewportSize { width: 0, height: 0 }),
            plugin@.tracker.last().logical == (ViewportSize { width: 0, height: 0 }),
            plugin@.debouncer == (Debouncer::Armed {
                remaining: crate::debounce::DEBOUNCE_INTERVAL,
            }),
            plugin@.command == GenerateCommand::Idle,
            plugin@.lifecycle == (LifecycleView { current: None, pending: None, next_id: 0 }),
    {
        GenerationPlugin {
            tracker: ViewportTracker::new(),
            debouncer: Debouncer::new(),
            command: GenerateCommand::Idle,
            lifecycle: Lifecycle::new(),
            cell_size,
        }
    }

    /// One tick of the trigger: `reading` is what the host reports of its
    /// viewport and `delta` the time since the tick before, in nanoseconds.
    /// The tracker looks at the reading first. A change of size re-arms the
    /// debouncer; on a tick without one the debouncer counts the time and,
    /// when its deadline is reached, the command is posted. A tick without a
    /// viewport is skipped, and fails if there never was one.
    pub fn trigger_generate(&mut self, reading: Option<ViewportReading>, delta: u64) -> (fired:
        Result<bool, PipelineError>)
        requires
            old(self).wf(),
        ensures
            final(self).wf(),
            fired == old(self)@.trigger_result(reading, delta),
            final(self)@.tracker.last() == match reading {
                Some(r) => r,
                None => old(self)@.tracker.last(),
            },
            final(self)@.tracker.has_seen() == (old(self)@.tracker.has_seen() || reading is Some),
            final(self)@.debouncer == old(self)@.trigger_debouncer(reading, delta),
            final(self)@.command == old(self)@.trigger_command(reading, delta),
            final(self)@.lifecycle == old(self)@.lifecycle,
            final(self)@.cell_size == old(self)@.cell_size,
    {
        let size_changed = match self.tracker.observe(reading) {
            Err(e) => {
                return Err(e);
            },
            Ok(Observation::Skipped) => {
                return Ok(false);
            },
            Ok(Observation::Changed(_)) => true,
            Ok(Observation::Unchanged) => false,
        };
        let fire = self.debouncer.step(DebounceStep { delta, size_changed });
        if fire {
            self.command.post();
        }
        Ok(fire)
    }

    /// Whether a regeneration is asked for.
    pub fn command_pending(&self) -> (pending: bool)
        ensures
            pending == (self@.command == GenerateCommand::Fired),
    {
        match self.command {
            GenerateCommand::Fired => true,
            GenerateCommand::Idle => false,
        }
    }

    /// Serves the command, if one is posted, and clears it. The viewport seen
    /// last is partitioned and mapped, and a generation is begun for its
    /// grid: the host is told what to do with a generation that this one
    /// supersedes, then to create a container, and then to submit one unit
    /// of work for each cell. The number of the new generation is returned.
    /// Without a command nothing happens.
    pub fn generation(&mut self) -> (begun: (Option<u64>, Vec<HostAction>))
        requires
            old(self).wf(),
            old(self)@.lifecycle.next_id < u64::MAX,
        ensures
            final(self).wf(),
            final(self)@.tracker == old(self)@.tracker,
            final(self)@.debouncer == old(self)@.debouncer,
            final(self)@.cell_size == old(self)@.cell_size,
            final(self)@.command == GenerateCommand::Idle,
            old(self)@.command == GenerateCommand::Idle ==> {
                &&& begun.0 is None
                &&& begun.1@ == Seq::<HostAction>::empty()
                &&& final(self)@.lifecycle == old(self)@.lifecycle
            },
            old(self)@.command == GenerateCommand::Fired ==> {
                &&& begun.0 == Some(old(self)@.lifecycle.next_id as u64)
                &&& begun.1@ == old(self)@.lifecycle.begin_actions() + spec_submissions(
                    old(self)@.tracker.last().physical,
                    old(self)@.cell_size,
                    old(self)@.lifecycle.next_id as u64,
                )
                &&& final(self)@.lifecycle == old(self)@.lifecycle.begin(old(self)@.next_grid())
            },
    {
        if !self.command.take() {
            return (None, Vec::new());
        }
        let viewport = self.tracker.current();
        let grid = Grid::partition(viewport, self.cell_size);
        let (id, mut actions) = self.lifecycle.begin(grid);
        let ghost superseding = actions@;
        if let Some(zoom) = ZoomWindow::from_viewport(viewport) {
            proof {
                lemma_viewport_zoom_maps_grid(viewport, self.cell_size);
            }
            let tasks = plan_tasks(&grid, &zoom, id).unwrap();
            let mut i: usize = 0;
            while i < tasks.len()
                invariant
                    i <= tasks@.len(),
                    tasks@ == spec_tasks(grid, zoom, id),
                    actions@.len() == superseding.len() + i,
                    forall|k: int| 0 <= k < superseding.len() ==> actions@[k] == superseding[k],
                    forall|k: int|
                        superseding.len() <= k < actions@.len() ==> actions@[k]
                            == HostAction::SubmitTask(tasks@[k - superseding.len()]),
                decreases tasks@.len() - i,
            {
                actions.push(HostAction::SubmitTask(tasks[i]));
                i = i + 1;
            }
        }
        (Some(id), actions)
    }

    /// The host has created the container of generation `id` and submitted
    /// its units of work, see [`Lifecycle::spawned`].
    pub fn spawned(&mut self, id: u64, container: u64) -> (actions: Vec<HostAction>)
        requires
            old(self).wf(),
        ensures
            final(self).wf(),
            final(self)@.lifecycle == old(self)@.lifecycle.spawned(id, container),
            actions@ == old(self)@.lifecycle.spawned_actions(id, container),
            final(self)@.tracker == old(self)@.tracker,
            final(self)@.debouncer == old(self)@.debouncer,
            final(self)@.command == old(self)@.command,
            final(self)@.cell_size == old(self)@.cell_size,
    {
        self.lifecycle.spawned(id, container)
    }

    /// A unit of work came back, see [`Lifecycle::deliver`].
    pub fn deliver(&mut self, id: u64, index: usize, outcome: Option<CellResult>) -> (actions: Vec<
        HostAction,
    >)
        requires
            old(self).wf(),
        ensures
            final(self).wf(),
            final(self)@.lifecycle == old(self)@.lifecycle.deliver(id, index, outcome),
            actions@ == old(self)@.lifecycle.deliver_actions(id, index, outcome),
            final(self)@.tracker == old(self)@.tracker,
            final(self)@.debouncer == old(self)@.debouncer,
            final(self)@.command == old(self)@.command,
            final(self)@.cell_size == old(self)@.cell_size,
    {
        self.lifecycle.deliver(id, index, outcome)
    }

    /// The physical size of the viewport that was seen last.
    pub fn viewport(&self) -> (size: ViewportSize)
        ensures
            size == self@.tracker.last().physical,
    {
        self.tracker.current()
    }

    /// The state of the debouncer.
    pub fn debouncer(&self) -> (debouncer: Debouncer)
        ensures
            debouncer == self@.debouncer,
    {
        self.debouncer
    }

    /// The edge of a cell in pixels.
    pub fn cell_size(&self) -> (cell_size: u32)
        ensures
            cell_size == self@.cell_size,
    {
        self.cell_size
    }

    /// The result collector, to read the generations from.
    pub fn lifecycle(&self) -> (lifecycle: &Lifecycle)
        ensures
            lifecycle@ == self@.lifecycle,
            self.wf() ==> lifecycle.wf(),
    {
        &self.lifecycle
    }
}

} // verus!
