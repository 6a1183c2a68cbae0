use mandelbrot_grid::grid::Grid;
use mandelbrot_grid::lifecycle::{CellColor, CellStatus, HostAction, Lifecycle, Phase};
use mandelbrot_grid::scheduler::CellResult;
use mandelbrot_grid::viewport::ViewportSize;

fn grid(w: u32, h: u32) -> Grid {
    Grid::partition(ViewportSize::new(w, h), 128)
}

fn values(n: u32) -> Option<CellResult> {
    Some(CellResult { values: vec![n] })
}

fn show(grid: &Grid, container: u64, generation: u64, index: usize, color: CellColor) -> HostAction {
    HostAction::ShowCell {
        container,
        generation,
        index,
        cell: grid.cell_at(index as u64).unwrap(),
        color,
    }
}

/// Begins a generation and reports it spawned with the container.
fn start(lifecycle: &mut Lifecycle, grid: Grid, container: u64) -> u64 {
    let (id, _) = lifecycle.begin(grid);
    let _ = lifecycle.spawned(id, container);
    id
}

#[test]
fn new_collector_has_no_generation() {
    let lifecycle = Lifecycle::new();
    assert!(lifecycle.current().is_none());
    assert!(lifecycle.pending().is_none());
    assert_eq!(lifecycle.generations_started(), 0);
    assert_eq!(lifecycle.phase_of(0), None);
}

#[test]
fn generation_runs_through_its_phases() {
    let g = grid(256, 128);
    let mut lifecycle = Lifecycle::new();
    let (id, actions) = lifecycle.begin(g);
    assert_eq!(id, 0);
    assert_eq!(actions, vec![HostAction::CreateContainer { generation: 0 }]);
    assert_eq!(lifecycle.generations_started(), 1);
    assert_eq!(lifecycle.phase_of(0), Some(Phase::Spawning));
    {
        let pending = lifecycle.pending().unwrap();
        assert_eq!(pending.id(), 0);
        assert_eq!(pending.container(), None);
        assert_eq!(pending.grid(), g);
        assert_eq!(pending.len(), 2);
        assert_eq!(pending.unresolved(), 2);
        assert_eq!(pending.status(0), Some(&CellStatus::Unresolved));
        assert_eq!(pending.status(2), None);
    }

    assert!(lifecycle.spawned(0, 11).is_empty());
    assert_eq!(lifecycle.phase_of(0), Some(Phase::AwaitingResults));
    assert_eq!(lifecycle.pending().unwrap().container(), Some(11));

    assert_eq!(lifecycle.deliver(0, 1, values(5)), vec![show(&g, 11, 0, 1, CellColor::Resolved)]);
    assert_eq!(lifecycle.phase_of(0), Some(Phase::AwaitingResults));
    assert_eq!(lifecycle.pending().unwrap().unresolved(), 1);
    assert!(lifecycle.current().is_none());

    assert_eq!(lifecycle.deliver(0, 0, values(6)), vec![show(&g, 11, 0, 0, CellColor::Resolved)]);
    assert_eq!(lifecycle.phase_of(0), Some(Phase::Ready));
    assert!(lifecycle.pending().is_none());
    let current = lifecycle.current().unwrap();
    assert_eq!(current.phase(), Phase::Ready);
    assert_eq!(current.container(), Some(11));
    assert_eq!(current.unresolved(), 0);
    assert_eq!(current.status(0), Some(&CellStatus::Ready(CellResult { values: vec![6] })));
    assert_eq!(current.status(1), Some(&CellStatus::Ready(CellResult { values: vec![5] })));
    assert_eq!(current.result(1), Some(&CellResult { values: vec![5] }));
    assert_eq!(lifecycle.result_of(0, 1), Some(&CellResult { values: vec![5] }));
}

#[test]
fn display_is_released_when_the_successor_is_ready_and_not_before() {
    let g = grid(128, 128);
    let mut lifecycle = Lifecycle::new();
    let _ = start(&mut lifecycle, g, 100);
    let _ = lifecycle.deliver(0, 0, values(1));
    assert_eq!(lifecycle.current().unwrap().id(), 0);

    let g2 = grid(256, 128);
    let (id, actions) = lifecycle.begin(g2);
    assert_eq!(id, 1);
    assert_eq!(actions, vec![HostAction::CreateContainer { generation: 1 }]);
    assert_eq!(lifecycle.current().unwrap().id(), 0);
    assert!(lifecycle.spawned(1, 200).is_empty());
    assert_eq!(lifecycle.deliver(1, 0, values(2)), vec![show(&g2, 200, 1, 0, CellColor::Resolved)]);
    assert_eq!(lifecycle.current().unwrap().id(), 0);
    assert_eq!(lifecycle.phase_of(0), Some(Phase::Ready));

    assert_eq!(
        lifecycle.deliver(1, 1, values(3)),
        vec![
            show(&g2, 200, 1, 1, CellColor::Resolved),
            HostAction::DestroyContainer { container: 100 },
        ]
    );
    assert_eq!(lifecycle.current().unwrap().id(), 1);
    assert!(lifecycle.pending().is_none());
    assert_eq!(lifecycle.phase_of(0), Some(Phase::Superseded));
    assert_eq!(lifecycle.phase_of(1), Some(Phase::Ready));
    assert_eq!(lifecycle.phase_of(2), None);
}

#[test]
fn new_generation_supersedes_the_one_awaiting_results() {
    let g = grid(256, 128);
    let mut lifecycle = Lifecycle::new();
    let _ = start(&mut lifecycle, g, 100);
    let _ = lifecycle.deliver(0, 0, values(1));
    assert_eq!(lifecycle.phase_of(0), Some(Phase::AwaitingResults));

    let (id, actions) = lifecycle.begin(g);
    assert_eq!(id, 1);
    assert_eq!(
        actions,
        vec![
            HostAction::CancelTasks { generation: 0 },
            HostAction::DestroyContainer { container: 100 },
            HostAction::CreateContainer { generation: 1 },
        ]
    );
    assert_eq!(lifecycle.phase_of(0), Some(Phase::Superseded));
    assert_eq!(lifecycle.phase_of(1), Some(Phase::Spawning));

    // A late result of the superseded generation is discarded.
    assert!(lifecycle.deliver(0, 1, values(2)).is_empty());
    assert!(lifecycle.deliver(0, 1, None).is_empty());
    let pending = lifecycle.pending().unwrap();
    assert_eq!(pending.id(), 1);
    assert_eq!(pending.unresolved(), 2);
    assert_eq!(pending.phase(), Phase::Spawning);
    assert!(lifecycle.current().is_none());
    assert_eq!(lifecycle.result_of(0, 0), None);
}

#[test]
fn new_generation_supersedes_the_one_spawning() {
    let mut lifecycle = Lifecycle::new();
    let _ = lifecycle.begin(grid(256, 128));
    let (id, actions) = lifecycle.begin(grid(128, 128));
    assert_eq!(id, 1);
    assert_eq!(
        actions,
        vec![
            HostAction::CancelTasks { generation: 0 },
            HostAction::CreateContainer { generation: 1 },
        ]
    );
    // The container of the superseded generation arrives late: it is not
    // awaited any more.
    assert_eq!(lifecycle.spawned(0, 100), vec![HostAction::DestroyContainer { container: 100 }]);
    assert_eq!(lifecycle.phase_of(0), Some(Phase::Superseded));
    assert_eq!(lifecycle.phase_of(1), Some(Phase::Spawning));
    assert!(lifecycle.spawned(1, 200).is_empty());
    let (id, actions) = lifecycle.begin(grid(128, 128));
    assert_eq!(id, 2);
    assert_eq!(
        actions,
        vec![
            HostAction::CancelTasks { generation: 1 },
            HostAction::DestroyContainer { container: 200 },
            HostAction::CreateContainer { generation: 2 },
        ]
    );
    assert_eq!(lifecycle.generations_started(), 3);
}

#[test]
fn container_that_is_not_awaited_is_destroyed() {
    let mut lifecycle = Lifecycle::new();
    assert_eq!(lifecycle.spawned(0, 7), vec![HostAction::DestroyContainer { container: 7 }]);
    let _ = start(&mut lifecycle, grid(256, 128), 8);
    // A second report for the same generation brings a container too many.
    assert_eq!(lifecycle.spawned(0, 9), vec![HostAction::DestroyContainer { container: 9 }]);
    assert_eq!(lifecycle.pending().unwrap().container(), Some(8));
    assert_eq!(lifecycle.spawned(5, 10), vec![HostAction::DestroyContainer { container: 10 }]);
    assert_eq!(lifecycle.phase_of(0), Some(Phase::AwaitingResults));
}

#[test]
fn late_results_stay_discarded_after_later_generations() {
    let g = grid(128, 128);
    let mut lifecycle = Lifecycle::new();
    let _ = start(&mut lifecycle, g, 1);
    let _ = start(&mut lifecycle, g, 2);
    let _ = lifecycle.deliver(1, 0, values(1));
    let _ = start(&mut lifecycle, g, 3);
    assert!(lifecycle.deliver(0, 0, values(9)).is_empty());
    assert_eq!(lifecycle.current().unwrap().id(), 1);
    assert_eq!(lifecycle.pending().unwrap().id(), 2);
    assert_eq!(lifecycle.pending().unwrap().unresolved(), 1);
    assert_eq!(lifecycle.phase_of(0), Some(Phase::Superseded));
}

#[test]
fn failed_cell_gets_the_sentinel_and_the_generation_proceeds() {
    let g = grid(256, 128);
    let mut lifecycle = Lifecycle::new();
    let _ = start(&mut lifecycle, g, 5);
    assert_eq!(lifecycle.deliver(0, 0, None), vec![show(&g, 5, 0, 0, CellColor::Sentinel)]);
    assert_eq!(lifecycle.pending().unwrap().status(0), Some(&CellStatus::Errored));
    assert_eq!(lifecycle.phase_of(0), Some(Phase::AwaitingResults));
    assert_eq!(lifecycle.result_of(0, 0), None);
    // The failed cell is not retried: a later result for it is discarded.
    assert!(lifecycle.deliver(0, 0, values(1)).is_empty());
    assert_eq!(lifecycle.pending().unwrap().status(0), Some(&CellStatus::Errored));
    assert_eq!(lifecycle.deliver(0, 1, values(2)), vec![show(&g, 5, 0, 1, CellColor::Resolved)]);
    assert_eq!(lifecycle.phase_of(0), Some(Phase::Ready));
}

#[test]
fn generation_of_failed_cells_alone_becomes_ready() {
    let g = grid(128, 128);
    let mut lifecycle = Lifecycle::new();
    let _ = start(&mut lifecycle, g, 5);
    let _ = lifecycle.deliver(0, 0, None);
    assert_eq!(lifecycle.current().unwrap().status(0), Some(&CellStatus::Errored));
}

#[test]
fn duplicate_and_out_of_range_results_are_discarded() {
    let g = grid(256, 128);
    let mut lifecycle = Lifecycle::new();
    let _ = start(&mut lifecycle, g, 5);
    let _ = lifecycle.deliver(0, 0, values(1));
    assert!(lifecycle.deliver(0, 0, values(2)).is_empty());
    assert_eq!(lifecycle.result_of(0, 0), Some(&CellResult { values: vec![1] }));
    assert!(lifecycle.deliver(0, 2, values(3)).is_empty());
    assert!(lifecycle.deliver(0, usize::MAX, values(3)).is_empty());
    assert!(lifecycle.deliver(1, 1, values(3)).is_empty());
    assert!(lifecycle.deliver(u64::MAX, 1, values(3)).is_empty());
    assert_eq!(lifecycle.pending().unwrap().unresolved(), 1);
}

#[test]
fn results_that_arrive_while_spawning_are_shown_once_the_container_exists() {
    let g = grid(256, 256);
    let mut lifecycle = Lifecycle::new();
    let _ = start(&mut lifecycle, grid(128, 128), 1);
    let _ = lifecycle.deliver(0, 0, values(0));
    let (id, _) = lifecycle.begin(g);
    assert_eq!(id, 1);
    assert!(lifecycle.deliver(1, 2, values(1)).is_empty());
    assert!(lifecycle.deliver(1, 0, None).is_empty());
    assert_eq!(lifecycle.pending().unwrap().unresolved(), 2);
    assert_eq!(lifecycle.phase_of(1), Some(Phase::Spawning));
    assert_eq!(
        lifecycle.spawned(1, 5),
        vec![show(&g, 5, 1, 0, CellColor::Sentinel), show(&g, 5, 1, 2, CellColor::Resolved)]
    );
    assert_eq!(lifecycle.phase_of(1), Some(Phase::AwaitingResults));
    assert_eq!(lifecycle.deliver(1, 3, values(2)), vec![show(&g, 5, 1, 3, CellColor::Resolved)]);
    assert_eq!(
        lifecycle.deliver(1, 1, values(3)),
        vec![
            show(&g, 5, 1, 1, CellColor::Resolved),
            HostAction::DestroyContainer { container: 1 },
        ]
    );
    assert_eq!(lifecycle.phase_of(1), Some(Phase::Ready));
}

#[test]
fn generation_whose_results_are_all_in_goes_on_display_when_spawned() {
    let g = grid(256, 128);
    let mut lifecycle = Lifecycle::new();
    let _ = start(&mut lifecycle, grid(128, 128), 1);
    let _ = lifecycle.deliver(0, 0, values(0));
    let _ = lifecycle.begin(g);
    assert!(lifecycle.deliver(1, 1, values(1)).is_empty());
    assert!(lifecycle.deliver(1, 0, values(2)).is_empty());
    // All cells are known, but the generation is still spawning.
    assert_eq!(lifecycle.phase_of(1), Some(Phase::Spawning));
    assert_eq!(lifecycle.current().unwrap().id(), 0);
    assert_eq!(
        lifecycle.spawned(1, 5),
        vec![
            show(&g, 5, 1, 0, CellColor::Resolved),
            show(&g, 5, 1, 1, CellColor::Resolved),
            HostAction::DestroyContainer { container: 1 },
        ]
    );
    assert_eq!(lifecycle.phase_of(1), Some(Phase::Ready));
    assert_eq!(lifecycle.current().unwrap().id(), 1);
}

#[test]
fn results_are_taken_in_any_order() {
    let g = grid(900, 600);
    let mut lifecycle = Lifecycle::new();
    let _ = start(&mut lifecycle, g, 5);
    let order: Vec<usize> = (0..40).map(|k| (k * 7 + 3) % 40).collect();
    for (n, &index) in order.iter().enumerate() {
        assert_eq!(lifecycle.phase_of(0), Some(Phase::AwaitingResults));
        let actions = lifecycle.deliver(0, index, values(index as u32));
        assert_eq!(actions, vec![show(&g, 5, 0, index, CellColor::Resolved)]);
        if n < 39 {
            assert_eq!(lifecycle.pending().unwrap().unresolved(), 39 - n);
        }
    }
    assert_eq!(lifecycle.phase_of(0), Some(Phase::Ready));
    for index in 0..40 {
        assert_eq!(
            lifecycle.result_of(0, index),
            Some(&CellResult { values: vec![index as u32] })
        );
    }
}

#[test]
fn generation_without_cells_goes_on_display_at_once() {
    let empty = Grid::partition(ViewportSize::new(0, 0), 128);
    let g = grid(128, 128);
    let mut lifecycle = Lifecycle::new();
    let _ = start(&mut lifecycle, g, 1);
    let _ = lifecycle.deliver(0, 0, values(1));
    let (id, _) = lifecycle.begin(empty);
    assert_eq!(lifecycle.phase_of(id), Some(Phase::Spawning));
    assert_eq!(lifecycle.spawned(id, 2), vec![HostAction::DestroyContainer { container: 1 }]);
    assert_eq!(lifecycle.current().unwrap().id(), id);
    assert_eq!(lifecycle.current().unwrap().len(), 0);
    assert!(lifecycle.deliver(id, 0, values(1)).is_empty());
}
