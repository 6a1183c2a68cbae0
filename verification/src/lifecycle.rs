//! The result collector: which generation of cells is on display, which one
//! is being computed, and what the host has to do when a result arrives.
//!
//! A generation is spawning while the host creates its container and
//! submits its units of work, awaits results until every cell is ready or
//! errored, is ready from then on, and is superseded once a later generation
//! takes its place. The generation on display stays until its successor is
//! ready: only then is its container released.

use crate::grid::{Cell, Grid};
use crate::scheduler::{CellResult, CellTask};
use vstd::prelude::*;

verus! {

/// The states of a generation.
#[derive(Clone, Copy, Debug, PartialEq, Eq, Structural)]
pub enum Phase {
    /// The host is creating the container and submitting the units of work.
    Spawning,
    /// The container exists, the units are submitted and some cell is
    /// unresolved.
    AwaitingResults,
    /// Every cell is ready or errored: the generation is on display.
    Ready,
    /// A later generation has taken its place; its resources are released.
    Superseded,
}

/// What is known of one cell of a generation.
#[derive(Clone, Debug, PartialEq, Eq)]
pub enum CellStatus {
    /// The unit of work has not come back.
    Unresolved,
    /// The unit of work came back with these values.
    Ready(CellResult),
    /// The unit of work failed.
    Errored,
}

/// The colour of a visual cell.
#[derive(Clone, Copy, Debug, PartialEq, Eq, Structural)]
pub enum CellColor {
    /// The colour that the cell's values give.
    Resolved,
    /// The colour that marks a cell whose unit of work failed.
    Sentinel,
}

/// What the host is asked to do.
#[derive(Clone, Copy, Debug, PartialEq, Eq, Structural)]
pub enum HostAction {
    /// Create the container node that will hold the generation's visuals,
    /// and report its handle.
    CreateContainer { generation: u64 },
    /// Submit the unit of work to the worker pool and keep its handle.
    SubmitTask(CellTask),
    /// Create the visual of a cell as a child of the container.
    ShowCell { container: u64, generation: u64, index: usize, cell: Cell, color: CellColor },
    /// Drop the handles of the generation's units of work that are still
    /// in flight.
    CancelTasks { generation: u64 },
    /// Destroy the container and all its children.
    DestroyContainer { container: u64 },
}

/// A generation as the contracts see it.
pub struct GenerationView {
    pub id: nat,
    pub grid: Grid,
    /// The handle of the container, once the host has created it.
    pub container: Option<u64>,
    pub phase: Phase,
    pub cells: Seq<CellStatus>,
}

/// The collector as the contracts see it.
pub struct LifecycleView {
    /// The generation on display.
    pub current: Option<GenerationView>,
    /// The generation that is being computed.
    pub pending: Option<GenerationView>,
    /// How many generations were started.
    pub next_id: nat,
}

/// What reaches the collector.
pub enum LifecycleEvent {
    /// The debouncer fired: a generation is begun for the grid.
    Begin { grid: Grid },
    /// The host has created the container of a generation and submitted its
    /// units of work.
    Spawned { id: u64, container: u64 },
    /// A unit of work came back, with its values or, failed, without.
    Deliver { id: u64, index: usize, outcome: Option<CellResult> },
}

/// The status that an outcome gives a cell.
pub open spec fn status_of(outcome: Option<CellResult>) -> CellStatus {
    match outcome {
        Some(result) => CellStatus::Ready(result),
        None => CellStatus::Errored,
    }
}

/// The colour of the visual of a cell.
pub open spec fn color_of(status: CellStatus) -> CellColor {
    match status {
        CellStatus::Errored => CellColor::Sentinel,
        _ => CellColor::Resolved,
    }
}

/// The values of the cell at position `index`, if it is ready.
pub open spec fn cell_result(cells: Seq<CellStatus>, index: usize) -> Option<CellResult> {
    if index < cells.len() {
        match cells[index as int] {
            CellStatus::Ready(result) => Some(result),
            _ => None,
        }
    } else {
        None
    }
}

/// How many cells are unresolved.
pub open spec fn unresolved_count(cells: Seq<CellStatus>) -> nat
    decreases cells.len(),
{
    if cells.len() == 0 {
        0
    } else {
        unresolved_count(cells.drop_last()) + if cells.last() is Unresolved {
            1nat
        } else {
            0nat
        }
    }
}

impl GenerationView {
    /// A generation has one status for each cell of its grid.
    pub open spec fn wf(self) -> bool {
        self.grid.wf() && self.cells.len() == self.grid.spec_cell_count()
    }

    /// Whether every cell is ready or errored.
    pub open spec fn all_done(self) -> bool {
        forall|i: int| 0 <= i < self.cells.len() ==> !(#[trigger] self.cells[i] is Unresolved)
    }

    /// The request for the visual of the cell at position `index`.
    pub open spec fn show(self, container: u64, index: int) -> HostAction {
        HostAction::ShowCell {
            container,
            generation: self.id as u64,
            index: index as usize,
            cell: self.grid.spec_cell_at(index),
            color: color_of(self.cells[index]),
        }
    }

    /// The requests for the visuals of those of the first `n` cells that are
    /// ready or errored, in the grid's order.
    pub open spec fn shows(self, container: u64, n: int) -> Seq<HostAction>
        decreases n,
    {
        if n <= 0 {
            Seq::empty()
        } else if self.cells[n - 1] is Unresolved {
            self.shows(container, n - 1)
        } else {
            self.shows(container, n - 1).push(self.show(container, n - 1))
        }
    }
}

impl LifecycleView {
    /// What holds of every state but for the moment between the last result
    /// of a generation and its promotion.
    pub open spec fn wf_unsettled(self) -> bool {
        &&& self.pending matches Some(p) ==> p.wf() && p.id < self.next_id && ((p.phase
            == Phase::Spawning && p.container is None) || (p.phase == Phase::AwaitingResults
            && p.container is Some))
        &&& self.current matches Some(c) ==> c.wf() && c.id < self.next_id && c.phase
            == Phase::Ready && c.container is Some && c.all_done()
        &&& self.current matches Some(c) ==> (self.pending matches Some(p) ==> c.id < p.id)
    }

    /// What holds of every state: at most one generation is on display and it
    /// is ready; at most one is being computed, it is younger and not ready.
    pub open spec fn wf(self) -> bool {
        self.wf_unsettled() && !self.promotes()
    }

    /// The state of the generation `id`, if it was started.
    pub open spec fn phase_of(self, id: u64) -> Option<Phase> {
        if self.pending matches Some(p) && p.id == id {
            Some(self.pending.unwrap().phase)
        } else if self.current matches Some(c) && c.id == id {
            Some(self.current.unwrap().phase)
        } else if id < self.next_id {
            Some(Phase::Superseded)
        } else {
            None
        }
    }

    /// The values of cell `index` of generation `id`, if that generation is
    /// on display or being computed and the cell is ready.
    pub open spec fn result_of(self, id: u64, index: usize) -> Option<CellResult> {
        if self.pending matches Some(p) && p.id == id {
            cell_result(self.pending.unwrap().cells, index)
        } else if self.current matches Some(c) && c.id == id {
            cell_result(self.current.unwrap().cells, index)
        } else {
            None
        }
    }

    /// What the host does with the generation that a new one supersedes: it
    /// cancels the units of work and destroys the container, if there is one
    /// yet.
    pub open spec fn supersede_actions(self) -> Seq<HostAction> {
        match self.pending {
            Some(p) => match p.container {
                Some(container) => seq![
                    HostAction::CancelTasks { generation: p.id as u64 },
                    HostAction::DestroyContainer { container },
                ],
                None => seq![HostAction::CancelTasks { generation: p.id as u64 }],
            },
            None => Seq::empty(),
        }
    }

    /// What the host does when a generation is begun: it deals with the one
    /// that is superseded, and creates a container for the new one.
    pub open spec fn begin_actions(self) -> Seq<HostAction> {
        self.supersede_actions().push(
            HostAction::CreateContainer { generation: self.next_id as u64 },
        )
    }

    /// The state after a new generation was begun: it is the one being
    /// computed, all its cells unresolved, and the one before it is dropped.
    pub open spec fn begin(self, grid: Grid) -> LifecycleView {
        LifecycleView {
            current: self.current,
            pending: Some(
                GenerationView {
                    id: self.next_id,
                    grid,
                    container: None,
                    phase: Phase::Spawning,
                    cells: Seq::new(
                        grid.spec_cell_count() as nat,
                        |i: int| CellStatus::Unresolved,
                    ),
                },
            ),
            next_id: self.next_id + 1,
        }
    }

    /// Whether the generation being computed is complete.
    pub open spec fn promotes(self) -> bool {
        self.pending matches Some(p) && p.phase == Phase::AwaitingResults && p.all_done()
    }

    /// A complete generation goes on display.
    pub open spec fn settle(self) -> LifecycleView {
        if self.promotes() {
            let p = self.pending.unwrap();
            LifecycleView {
                current: Some(
                    GenerationView {
                        id: p.id,
                        grid: p.grid,
                        container: p.container,
                        phase: Phase::Ready,
                        cells: p.cells,
                    },
                ),
                pending: None,
                next_id: self.next_id,
            }
        } else {
            self
        }
    }

    /// When a generation goes on display, the one that was there is
    /// released.
    pub open spec fn settle_actions(self) -> Seq<HostAction> {
        if self.promotes() && self.current is Some && self.current.unwrap().container is Some {
            seq![
                HostAction::DestroyContainer {
                    container: self.current.unwrap().container.unwrap(),
                },
            ]
        } else {
            Seq::empty()
        }
    }

    /// Whether `id` names the generation being computed while it spawns.
    pub open spec fn is_spawning(self, id: u64) -> bool {
        self.pending matches Some(p) && p.id == id && p.phase == Phase::Spawning
    }

    /// The generation being computed has its container and awaits its
    /// results.
    pub open spec fn mark_spawned(self, container: u64) -> LifecycleView {
        match self.pending {
            Some(p) => LifecycleView {
                current: self.current,
                pending: Some(
                    GenerationView {
                        id: p.id,
                        grid: p.grid,
                        container: Some(container),
                        phase: Phase::AwaitingResults,
                        cells: p.cells,
                    },
                ),
                next_id: self.next_id,
            },
            None => self,
        }
    }

    /// The state after the host has spawned generation `id`. A report that
    /// is not awaited changes nothing.
    pub open spec fn spawned(self, id: u64, container: u64) -> LifecycleView {
        if self.is_spawning(id) {
            self.mark_spawned(container).settle()
        } else {
            self
        }
    }

    /// What the host does once it has spawned generation `id`: it shows the
    /// cells whose results are in already, and releases the generation on
    /// display if there is no cell left to wait for. A container that is not
    /// awaited is destroyed.
    pub open spec fn spawned_actions(self, id: u64, container: u64) -> Seq<HostAction> {
        if self.is_spawning(id) {
            let p = self.pending.unwrap();
            p.shows(container, p.cells.len() as int) + self.mark_spawned(
                container,
            ).settle_actions()
        } else {
            seq![HostAction::DestroyContainer { container }]
        }
    }

    /// Whether a result for cell `index` of generation `id` is taken: the
    /// generation is the one being computed and the cell is unresolved.
    pub open spec fn accepts(self, id: u64, index: usize) -> bool {
        self.pending matches Some(p) && p.id == id && index < p.cells.len() && p.cells[index as int]
            is Unresolved
    }

    /// The generation being computed, with one more status known.
    pub open spec fn record(self, index: usize, status: CellStatus) -> LifecycleView {
        match self.pending {
            Some(p) => LifecycleView {
                current: self.current,
                pending: Some(
                    GenerationView {
                        id: p.id,
                        grid: p.grid,
                        container: p.container,
                        phase: p.phase,
                        cells: p.cells.update(index as int, status),
                    },
                ),
                next_id: self.next_id,
            },
            None => self,
        }
    }

    /// The state after a unit of work came back. A result that is not taken
    /// changes nothing.
    pub open spec fn deliver(self, id: u64, index: usize, outcome: Option<CellResult>)
        -> LifecycleView {
        if self.accepts(id, index) {
            self.record(index, status_of(outcome)).settle()
        } else {
            self
        }
    }

    /// What the host does when a unit of work came back: it shows the cell,
    /// if the container exists, and releases the generation on display if
    /// this was the last cell of its successor. A result that is not taken
    /// has no effect.
    pub open spec fn deliver_actions(self, id: u64, index: usize, outcome: Option<CellResult>)
        -> Seq<HostAction> {
        if self.accepts(id, index) {
            let recorded = self.record(index, status_of(outcome));
            match recorded.pending.unwrap().container {
                Some(container) => seq![recorded.pending.unwrap().show(container, index as int)]
                    + recorded.settle_actions(),
                None => Seq::empty(),
            }
        } else {
            Seq::empty()
        }
    }

    /// The state after an event.
    pub open spec fn apply(self, event: LifecycleEvent) -> LifecycleView {
        match event {
            LifecycleEvent::Begin { grid } => self.begin(grid),
            LifecycleEvent::Spawned { id, container } => self.spawned(id, container),
            LifecycleEvent::Deliver { id, index, outcome } => self.deliver(id, index, outcome),
        }
    }

    /// What the host does on an event.
    pub open spec fn actions(self, event: LifecycleEvent) -> Seq<HostAction> {
        match event {
            LifecycleEvent::Begin { grid } => self.begin_actions(),
            LifecycleEvent::Spawned { id, container } => self.spawned_actions(id, container),
            LifecycleEvent::Deliver { id, index, outcome } => self.deliver_actions(
                id,
                index,
                outcome,
            ),
        }
    }

    /// The state after a run of events.
    pub open spec fn run(self, events: Seq<LifecycleEvent>) -> LifecycleView
        decreases events.len(),
    {
        if events.len() == 0 {
            self
        } else {
            self.run(events.drop_last()).apply(events.last())
        }
    }
}

proof fn lemma_count_update(cells: Seq<CellStatus>, index: int, status: CellStatus)
    requires
        0 <= index < cells.len(),
    ensures
        unresolved_count(cells.update(index, status)) + (if cells[index] is Unresolved {
            1nat
        } else {
            0nat
        }) == unresolved_count(cells) + (if status is Unresolved {
            1nat
        } else {
            0nat
        }),
    decreases cells.len(),
{
    let updated = cells.update(index, status);
    if index == cells.len() - 1 {
        assert(updated.drop_last() == cells.drop_last());
    } else {
        assert(updated.drop_last() == cells.drop_last().update(index, status));
        lemma_count_update(cells.drop_last(), index, status);
    }
}

proof fn lemma_count_zero(cells: Seq<CellStatus>)
    ensures
        unresolved_count(cells) <= cells.len(),
        unresolved_count(cells) == 0 <==> (forall|i: int|
            0 <= i < cells.len() ==> !(#[trigger] cells[i] is Unresolved)),
    decreases cells.len(),
{
    if cells.len() > 0 {
        lemma_count_zero(cells.drop_last());
        let front = cells.drop_last();
        if unresolved_count(cells) == 0 {
            assert forall|i: int| 0 <= i < cells.len() implies !(#[trigger] cells[i]
                is Unresolved) by {
                if i < cells.len() - 1 {
                    assert(front[i] == cells[i]);
                }
            }
        }
    }
}

/// Which cells are shown depends on the generation's number, grid and cells,
/// not on its phase or on the container it had before.
proof fn lemma_shows_ignores_phase(
    a: GenerationView,
    b: GenerationView,
    container: u64,
    n: int,
)
    requires
        a.id == b.id,
        a.grid == b.grid,
        a.cells == b.cells,
    ensures
        a.shows(container, n) == b.shows(container, n),
    decreases n,
{
    if n > 0 {
        lemma_shows_ignores_phase(a, b, container, n - 1);
    }
}

proof fn lemma_count_fresh(n: nat)
    ensures
        unresolved_count(Seq::new(n, |i: int| CellStatus::Unresolved)) == n,
    decreases n,
{
    if n > 0 {
        let cells = Seq::new(n, |i: int| CellStatus::Unresolved);
        assert(cells.drop_last() == Seq::new((n - 1) as nat, |i: int| CellStatus::Unresolved));
        lemma_count_fresh((n - 1) as nat);
    }
}

/// One generation of cells: its grid, the container of its visuals and what
/// is known of each cell.
#[derive(Debug)]
pub struct Generation {
    id: u64,
    grid: Grid,
    container: Option<u64>,
    phase: Phase,
    statuses: Vec<CellStatus>,
    unresolved: usize,
}

impl View for Generation {
    type V = GenerationView;

    closed spec fn view(&self) -> GenerationView {
        GenerationView {
            id: self.id as nat,
            grid: self.grid,
            container: self.container,
            phase: self.phase,
            cells: self.statuses@,
        }
    }
}

impl Generation {
    /// The count of unresolved cells is kept beside the cells.
    pub closed spec fn wf(&self) -> bool {
        self@.wf() && self.unresolved == unresolved_count(self.statuses@)
    }

    /// The number that tells this generation from all others.
    pub fn id(&self) -> (id: u64)
        ensures
            id == self@.id,
    {
        self.id
    }

    /// The grid whose cells the generation computes.
    pub fn grid(&self) -> (grid: Grid)
        ensures
            grid == self@.grid,
    {
        self.grid
    }

    /// The handle of the container that holds the generation's visuals, once
    /// the host has created it.
    pub fn container(&self) -> (container: Option<u64>)
        ensures
            container == self@.container,
    {
        self.container
    }

    /// The state of the generation.
    pub fn phase(&self) -> (phase: Phase)
        ensures
            phase == self@.phase,
    {
        self.phase
    }

    /// The number of cells.
    pub fn len(&self) -> (n: usize)
        ensures
            n == self@.cells.len(),
    {
        self.statuses.len()
    }

    /// What is known of the cell at position `index`.
    pub fn status(&self, index: usize) -> (status: Option<&CellStatus>)
        ensures
            status == if index < self@.cells.len() {
                Some(&self@.cells[index as int])
            } else {
                None
            },
    {
        if index < self.statuses.len() {
            Some(&self.statuses[index])
        } else {
            None
        }
    }

    /// How many cells are unresolved.
    pub fn unresolved(&self) -> (n: usize)
        requires
            self.wf(),
        ensures
            n == unresolved_count(self@.cells),
            n == 0 <==> self@.all_done(),
    {
        proof {
            lemma_count_zero(self.statuses@);
        }
        self.unresolved
    }

    /// The values of the cell at position `index`, if it is ready.
    pub fn result(&self, index: usize) -> (result: Option<&CellResult>)
        ensures
            result == match cell_result(self@.cells, index) {
                Some(r) => Some(&r),
                None => None,
            },
    {
        if index < self.statuses.len() {
            match &self.statuses[index] {
                CellStatus::Ready(result) => Some(result),
                _ => None,
            }
        } else {
            None
        }
    }

    fn color(&self, index: usize) -> (color: CellColor)
        requires
            index < self@.cells.len(),
        ensures
            color == color_of(self@.cells[index as int]),
    {
        match &self.statuses[index] {
            CellStatus::Errored => CellColor::Sentinel,
            _ => CellColor::Resolved,
        }
    }

    fn is_unresolved(&self, index: usize) -> (b: bool)
        requires
            index < self@.cells.len(),
        ensures
            b == (self@.cells[index as int] is Unresolved),
    {
        match &self.statuses[index] {
            CellStatus::Unresolved => true,
            _ => false,
        }
    }

    fn fresh(id: u64, grid: Grid) -> (generation: Generation)
        requires
            grid.wf(),
        ensures
            generation.wf(),
            generation@ == (GenerationView {
                id: id as nat,
                grid,
                container: None,
                phase: Phase::Spawning,
                cells: Seq::new(grid.spec_cell_count() as nat, |i: int| CellStatus::Unresolved),
            }),
    {
        let count: u64 = grid.cell_count();
        let mut statuses: Vec<CellStatus> = Vec::new();
        let mut k: u64 = 0;
        while k < count
            invariant
                k <= count,
                statuses@.len() == k,
                forall|i: int| 0 <= i < k ==> statuses@[i] is Unresolved,
            decreases count - k,
        {
            statuses.push(CellStatus::Unresolved);
            k = k + 1;
        }
        proof {
            assert(statuses@ == Seq::new(count as nat, |i: int| CellStatus::Unresolved));
            lemma_count_fresh(count as nat);
        }
        let unresolved: usize = statuses.len();
        Generation { id, grid, container: None, phase: Phase::Spawning, statuses, unresolved }
    }
}

/// The result collector.
#[derive(Debug)]
pub struct Lifecycle {
    current: Option<Generation>,
    pending: Option<Generation>,
    next_id: u64,
}

impl View for Lifecycle {
    type V = LifecycleView;

    closed spec fn view(&self) -> LifecycleView {
        LifecycleView {
            current: match self.current {
                Some(g) => Some(g@),
                None => None,
            },
            pending: match self.pending {
                Some(g) => Some(g@),
                None => None,
            },
            next_id: self.next_id as nat,
        }
    }
}

impl Lifecycle {
    spec fn wf_parts(&self) -> bool {
        &&& self.current matches Some(c) ==> c.wf()
        &&& self.pending matches Some(p) ==> p.wf()
    }

    /// The collector is well formed when its view is.
    pub closed spec fn wf(&self) -> bool {
        self@.wf() && self.wf_parts()
    }

    /// What `wf` means to a caller.
    pub proof fn lemma_wf(&self)
        requires
            self.wf(),
        ensures
            self@.wf(),
            self@.next_id <= u64::MAX,
    {
    }

    /// A collector that has seen no generation.
    pub fn new() -> (lifecycle: Lifecycle)
        ensures
            lifecycle.wf(),
            lifecycle@ == (LifecycleView { current: None, pending: None, next_id: 0 }),
    {
        Lifecycle { current: None, pending: None, next_id: 0 }
    }

    /// How many generations were started.
    pub fn generations_started(&self) -> (n: u64)
        ensures
            n == self@.next_id,
    {
        self.next_id
    }

    /// The generation on display.
    pub fn current(&self) -> (generation: Option<&Generation>)
        ensures
            generation is Some <==> self@.current is Some,
            generation matches Some(g) ==> self@.current == Some(g@) && (self.wf() ==> g.wf()),
    {
        self.current.as_ref()
    }

    /// The generation that is being computed.
    pub fn pending(&self) -> (generation: Option<&Generation>)
        ensures
            generation is Some <==> self@.pending is Some,
            generation matches Some(g) ==> self@.pending == Some(g@) && (self.wf() ==> g.wf()),
    {
        self.pending.as_ref()
    }

    /// The state of the generation `id`: that of the generation being
    /// computed or on display, superseded for any other that was started,
    /// nothing for one that was not.
    pub fn phase_of(&self, id: u64) -> (phase: Option<Phase>)
        ensures
            phase == self@.phase_of(id),
    {
        match &self.pending {
            Some(p) => {
                if p.id == id {
                    return Some(p.phase);
                }
            },
            None => {},
        }
        match &self.current {
            Some(c) => {
                if c.id == id {
                    return Some(c.phase);
                }
            },
            None => {},
        }
        if id < self.next_id {
            Some(Phase::Superseded)
        } else {
            None
        }
    }

    /// The values of cell `index` of generation `id`, for the host to colour
    /// the cell's visual with.
    pub fn result_of(&self, id: u64, index: usize) -> (result: Option<&CellResult>)
        ensures
            result == match self@.result_of(id, index) {
                Some(r) => Some(&r),
                None => None,
            },
    {
        match &self.pending {
            Some(p) => {
                if p.id == id {
                    return p.result(index);
                }
            },
            None => {},
        }
        match &self.current {
            Some(c) => {
                if c.id == id {
                    return c.result(index);
                }
            },
            None => {},
        }
        None
    }

    fn settle(&mut self, actions: &mut Vec<HostAction>)
        requires
            old(self)@.wf_unsettled(),
            old(self).wf_parts(),
        ensures
            final(self).wf(),
            final(self)@ == old(self)@.settle(),
            final(actions)@ == old(actions)@ + old(self)@.settle_actions(),
    {
        let complete = match &self.pending {
            Some(p) => {
                proof {
                    lemma_count_zero(p.statuses@);
                }
                p.phase == Phase::AwaitingResults && p.unresolved == 0
            },
            None => false,
        };
        if complete {
            let mut promoted = self.pending.take().unwrap();
            promoted.phase = Phase::Ready;
            match self.current.take() {
                Some(released) => match released.container {
                    Some(container) => {
                        actions.push(HostAction::DestroyContainer { container });
                    },
                    None => {},
                },
                None => {},
            }
            self.current = Some(promoted);
        }
    }

    /// Begins a generation for the grid and gives it the next number. It is
    /// the one being computed from now on, and the host is asked for a
    /// container to hold its visuals. A generation that was being computed
    /// until now is superseded: its units of work are cancelled and its
    /// container, if it has one, is destroyed. The generation on display
    /// stays.
    pub fn begin(&mut self, grid: Grid) -> (started: (u64, Vec<HostAction>))
        requires
            old(self).wf(),
            grid.wf(),
            old(self)@.next_id < u64::MAX,
        ensures
            final(self).wf(),
            final(self)@ == old(self)@.begin(grid),
            started.0 == old(self)@.next_id,
            started.1@ == old(self)@.begin_actions(),
    {
        let mut actions: Vec<HostAction> = Vec::new();
        match self.pending.take() {
            Some(superseded) => {
                actions.push(HostAction::CancelTasks { generation: superseded.id });
                match superseded.container {
                    Some(container) => {
                        actions.push(HostAction::DestroyContainer { container });
                    },
                    None => {},
                }
            },
            None => {},
        }
        let id: u64 = self.next_id;
        actions.push(HostAction::CreateContainer { generation: id });
        self.pending = Some(Generation::fresh(id, grid));
        self.next_id = id + 1;
        (id, actions)
    }

    /// The host has spawned generation `id`: `container` is the handle of its
    /// container, and its units of work are submitted. If that is the
    /// generation being computed and it was spawning, it awaits its results
    /// from now on. The cells whose results came in before are shown, and a
    /// generation without unresolved cells goes on display at once. Any
    /// other report is not awaited: nothing changes, and the host is told to
    /// destroy the container.
    pub fn spawned(&mut self, id: u64, container: u64) -> (actions: Vec<HostAction>)
        requires
            old(self).wf(),
        ensures
            final(self).wf(),
            final(self)@ == old(self)@.spawned(id, container),
            actions@ == old(self)@.spawned_actions(id, container),
    {
        let mut actions: Vec<HostAction> = Vec::new();
        let spawning = match &self.pending {
            Some(p) => p.id == id && p.phase == Phase::Spawning,
            None => false,
        };
        if spawning {
            let mut pending = self.pending.take().unwrap();
            pending.container = Some(container);
            pending.phase = Phase::AwaitingResults;
            let mut i: usize = 0;
            while i < pending.statuses.len()
                invariant
                    pending.wf(),
                    pending@.id == id,
                    i <= pending@.cells.len(),
                    actions@ == pending@.shows(container, i as int),
                decreases pending@.cells.len() - i,
            {
                if !pending.is_unresolved(i) {
                    let cell = pending.grid.cell_at(i as u64).unwrap();
                    let color = pending.color(i);
                    actions.push(
                        HostAction::ShowCell { container, generation: id, index: i, cell, color },
                    );
                }
                i = i + 1;
            }
            self.pending = Some(pending);
            proof {
                lemma_shows_ignores_phase(
                    old(self)@.pending.unwrap(),
                    self@.pending.unwrap(),
                    container,
                    i as int,
                );
            }
            self.settle(&mut actions);
        } else {
            actions.push(HostAction::DestroyContainer { container });
        }
        actions
    }

    /// A unit of work came back: with its values, or without them where it
    /// failed. The result is taken if it belongs to an unresolved cell of the
    /// generation being computed. The cell is then ready, or errored, and
    /// is shown as soon as the container exists; with the last cell the
    /// generation goes on display and the one before it is released. Any
    /// other result is discarded: nothing changes and the host has nothing
    /// to do.
    pub fn deliver(&mut self, id: u64, index: usize, outcome: Option<CellResult>) -> (actions: Vec<
        HostAction,
    >)
        requires
            old(self).wf(),
        ensures
            final(self).wf(),
            final(self)@ == old(self)@.deliver(id, index, outcome),
            actions@ == old(self)@.deliver_actions(id, index, outcome),
    {
        let mut actions: Vec<HostAction> = Vec::new();
        let accepted = match &self.pending {
            Some(p) => p.id == id && index < p.statuses.len() && p.is_unresolved(index),
            None => false,
        };
        if accepted {
            let mut pending = self.pending.take().unwrap();
            let status = match outcome {
                Some(result) => CellStatus::Ready(result),
                None => CellStatus::Errored,
            };
            proof {
                lemma_count_update(pending.statuses@, index as int, status);
            }
            pending.statuses.set(index, status);
            pending.unresolved = pending.unresolved - 1;
            match pending.container {
                Some(container) => {
                    let cell = pending.grid.cell_at(index as u64).unwrap();
                    let color = pending.color(index);
                    actions.push(
                        HostAction::ShowCell { container, generation: id, index, cell, color },
                    );
                },
                None => {},
            }
            self.pending = Some(pending);
            self.settle(&mut actions);
        }
        actions
    }
}

/// Whether the collector can take the event: a grid that is begun is the
/// partition of its viewport.
pub open spec fn event_ok(event: LifecycleEvent) -> bool {
    event matches LifecycleEvent::Begin { grid, .. } ==> grid.wf()
}

/// The generation `id` was started and is neither on display nor being
/// computed, nor can it be again.
pub open spec fn retired(state: LifecycleView, id: u64) -> bool {
    &&& id < state.next_id
    &&& state.pending matches Some(p) ==> id < p.id
    &&& state.current matches Some(c) ==> c.id != id
}

proof fn lemma_retired_stays(state: LifecycleView, id: u64, events: Seq<LifecycleEvent>)
    requires
        retired(state, id),
    ensures
        retired(state.run(events), id),
    decreases events.len(),
{
    if events.len() > 0 {
        lemma_retired_stays(state, id, events.drop_last());
    }
}

/// Every event leaves the collector well formed: at most one generation is
/// on display, at most one is being computed, and it is the younger one.
/// Numbers are never given twice, and once a generation is on display some
/// generation is on display for good.
pub proof fn lemma_step_keeps_wf(state: LifecycleView, event: LifecycleEvent)
    requires
        state.wf(),
        event_ok(event),
    ensures
        state.apply(event).wf(),
        state.apply(event).next_id >= state.next_id,
        state.current is Some ==> state.apply(event).current is Some,
{
}

/// The display changes at one moment only: when the generation being
/// computed awaits its results and its last cell is ready or errored. It
/// goes on display then, and the last thing the host is told is to release
/// the one that was there. An event that leaves the display as it is asks
/// for nothing but what the event itself brings: the new generation's
/// container, the cells to show, or the end of a container that is not
/// awaited.
pub proof fn lemma_display_changes_on_ready(state: LifecycleView, event: LifecycleEvent)
    requires
        state.wf(),
        event_ok(event),
    ensures
        state.apply(event).current != state.current ==> ({
            let after = state.apply(event);
            &&& state.pending is Some
            &&& after.current is Some
            &&& after.pending is None
            &&& after.current.unwrap().id == state.pending.unwrap().id
            &&& after.current.unwrap().phase == Phase::Ready
            &&& after.current.unwrap().all_done()
            &&& state.current matches Some(c) ==> state.actions(event).last()
                == (HostAction::DestroyContainer { container: c.container.unwrap() })
        }),
        state.apply(event).current == state.current ==> state.actions(event) == match event {
            LifecycleEvent::Begin { grid } => state.begin_actions(),
            LifecycleEvent::Spawned { id, container } => if state.is_spawning(id) {
                state.pending.unwrap().shows(container, state.pending.unwrap().cells.len() as int)
            } else {
                seq![HostAction::DestroyContainer { container }]
            },
            LifecycleEvent::Deliver { id, index, outcome } => if state.accepts(id, index)
                && state.pending.unwrap().container is Some {
                seq![
                    state.record(index, status_of(outcome)).pending.unwrap().show(
                        state.pending.unwrap().container.unwrap(),
                        index as int,
                    ),
                ]
            } else {
                Seq::<HostAction>::empty()
            },
        },
{
    lemma_step_keeps_wf(state, event);
}

/// Beginning a generation while another is being computed supersedes that
/// one: its units of work are cancelled and its container, if it has one, is
/// destroyed. Whatever happens afterwards, it stays superseded, and a result
/// that arrives for it is discarded: the state does not change and the host
/// has nothing to do.
pub proof fn lemma_superseded_results_are_discarded(
    state: LifecycleView,
    grid: Grid,
    later: Seq<LifecycleEvent>,
    id: u64,
    index: usize,
    outcome: Option<CellResult>,
)
    requires
        state.wf(),
        state.pending is Some,
        state.pending.unwrap().id == id,
    ensures
        state.begin_actions()[0] == (HostAction::CancelTasks { generation: id }),
        state.pending.unwrap().container matches Some(container) ==> state.begin_actions()[1]
            == (HostAction::DestroyContainer { container }),
        state.begin(grid).phase_of(id) == Some(Phase::Superseded),
        ({
            let after = state.begin(grid).run(later);
            &&& after.phase_of(id) == Some(Phase::Superseded)
            &&& after.deliver(id, index, outcome) == after
            &&& after.deliver_actions(id, index, outcome) == Seq::<HostAction>::empty()
        }),
{
    lemma_retired_stays(state.begin(grid), id, later);
}

} // verus!
