use mandelbrot_grid::debounce::{Debouncer, DEBOUNCE_INTERVAL};
use mandelbrot_grid::grid::{Grid, CELL_SIZE};
use mandelbrot_grid::lifecycle::{CellColor, HostAction, Phase};
use mandelbrot_grid::generation::{GenerateCommand, GenerationPlugin};
use mandelbrot_grid::scheduler::{plan_tasks, CellResult};
use mandelbrot_grid::viewport::{PipelineError, ViewportReading, ViewportSize};
use mandelbrot_grid::zoom::ZoomWindow;

const MS: u64 = 1_000_000;

fn reading(w: u32, h: u32) -> Option<ViewportReading> {
    Some(ViewportReading { physical: ViewportSize::new(w, h), logical: ViewportSize::new(w, h) })
}

/// What a new generation asks of the host: a container, and one submission
/// for each cell.
fn requests(w: u32, h: u32, cell_size: u32, id: u64) -> Vec<HostAction> {
    let viewport = ViewportSize::new(w, h);
    let grid = Grid::partition(viewport, cell_size);
    let mut actions = vec![HostAction::CreateContainer { generation: id }];
    if let Some(zoom) = ZoomWindow::from_viewport(viewport) {
        let tasks = plan_tasks(&grid, &zoom, id).unwrap();
        actions.extend(tasks.into_iter().map(HostAction::SubmitTask));
    }
    actions
}

/// Ticks with the same reading until the command is posted, and gives the
/// time that took.
fn wait_for_fire(plugin: &mut GenerationPlugin, w: u32, h: u32, delta: u64) -> u64 {
    let mut waited = 0;
    loop {
        waited += delta;
        if plugin.trigger_generate(reading(w, h), delta).unwrap() {
            return waited;
        }
        assert!(waited < 10 * DEBOUNCE_INTERVAL);
    }
}

#[test]
fn command_slot_is_taken_once() {
    let mut command = GenerateCommand::Idle;
    assert!(!command.take());
    command.post();
    command.post();
    assert_eq!(command, GenerateCommand::Fired);
    assert!(command.take());
    assert_eq!(command, GenerateCommand::Idle);
    assert!(!command.take());
}

#[test]
fn driver_starts_armed_and_empty() {
    let plugin = GenerationPlugin::init(CELL_SIZE);
    assert_eq!(plugin.cell_size(), 256);
    assert_eq!(plugin.viewport(), ViewportSize::zero());
    assert_eq!(plugin.debouncer(), Debouncer::Armed { remaining: DEBOUNCE_INTERVAL });
    assert!(!plugin.command_pending());
    assert!(plugin.lifecycle().current().is_none());
    assert!(plugin.lifecycle().pending().is_none());
}

#[test]
fn scenario_900_by_600_regenerates_once_after_the_size_settles() {
    let mut plugin = GenerationPlugin::init(128);
    // The first reading differs from the baseline: the debouncer is re-armed.
    assert_eq!(plugin.trigger_generate(reading(900, 600), 16 * MS), Ok(false));
    assert_eq!(plugin.debouncer(), Debouncer::Armed { remaining: DEBOUNCE_INTERVAL });
    let mut fires = 0;
    let mut fired_at = 0;
    for n in 1..=100u64 {
        if plugin.trigger_generate(reading(900, 600), 10 * MS).unwrap() {
            fires += 1;
            fired_at = n * 10 * MS;
        }
    }
    assert_eq!(fires, 1);
    assert_eq!(fired_at, DEBOUNCE_INTERVAL);
    assert!(plugin.command_pending());

    let (id, actions) = plugin.generation();
    assert_eq!(id, Some(0));
    assert_eq!(actions.len(), 1 + 40);
    assert_eq!(actions, requests(900, 600, 128, 0));
    assert!(!plugin.command_pending());
    assert!(plugin.spawned(0, 77).is_empty());
    let pending = plugin.lifecycle().pending().unwrap();
    assert_eq!(pending.grid(), Grid::partition(ViewportSize::new(900, 600), 128));
    assert_eq!((pending.grid().cells_x, pending.grid().cells_y), (8, 5));
    assert_eq!(pending.container(), Some(77));
    assert_eq!(pending.len(), 40);
}

#[test]
fn driver_fires_at_startup_without_a_size_change() {
    // The host reports the baseline size from the start: nothing ever changes.
    let mut plugin = GenerationPlugin::init(128);
    assert_eq!(wait_for_fire(&mut plugin, 0, 0, 50 * MS), DEBOUNCE_INTERVAL);
    let (id, actions) = plugin.generation();
    assert_eq!(id, Some(0));
    assert_eq!(actions, vec![HostAction::CreateContainer { generation: 0 }]);
    // A generation without cells is on display as soon as it is spawned.
    assert!(plugin.spawned(0, 1).is_empty());
    assert_eq!(plugin.lifecycle().phase_of(0), Some(Phase::Ready));
    // No further signal without a change.
    for _ in 0..20 {
        assert_eq!(plugin.trigger_generate(reading(0, 0), 50 * MS), Ok(false));
    }
}

#[test]
fn resize_burst_gives_one_regeneration() {
    let mut plugin = GenerationPlugin::init(128);
    let mut fires = 0;
    let mut now = 0;
    let mut fired_at = 0;
    // The size changes on ten ticks in a row, 40 ms apart, and then stays.
    for n in 0..40u32 {
        now += 40 * MS;
        let width = if n < 10 { 800 + n } else { 809 };
        if plugin.trigger_generate(reading(width, 600), 40 * MS).unwrap() {
            fires += 1;
            fired_at = now;
        }
    }
    assert_eq!(fires, 1);
    // The last change came with the tenth tick, at 400 ms; the first tick a
    // quarter second later is the one at 680 ms.
    assert_eq!(fired_at, 680 * MS);
    assert_eq!(plugin.viewport(), ViewportSize::new(809, 600));
}

#[test]
fn pipeline_cannot_start_without_a_viewport() {
    let mut plugin = GenerationPlugin::init(128);
    assert_eq!(plugin.trigger_generate(None, 16 * MS), Err(PipelineError::ViewportUnavailable));
    assert_eq!(
        plugin.trigger_generate(None, DEBOUNCE_INTERVAL),
        Err(PipelineError::ViewportUnavailable)
    );
    assert_eq!(plugin.debouncer(), Debouncer::Armed { remaining: DEBOUNCE_INTERVAL });
    assert!(!plugin.command_pending());
}

#[test]
fn tick_without_a_viewport_is_skipped_mid_run() {
    let mut plugin = GenerationPlugin::init(128);
    assert_eq!(plugin.trigger_generate(reading(900, 600), 16 * MS), Ok(false));
    assert_eq!(plugin.trigger_generate(reading(900, 600), 100 * MS), Ok(false));
    let before = plugin.debouncer();
    assert_eq!(before, Debouncer::Armed { remaining: 150 * MS });
    assert_eq!(plugin.trigger_generate(None, DEBOUNCE_INTERVAL), Ok(false));
    assert_eq!(plugin.debouncer(), before);
    assert_eq!(plugin.viewport(), ViewportSize::new(900, 600));
    assert_eq!(plugin.trigger_generate(reading(900, 600), 150 * MS), Ok(true));
}

#[test]
fn generation_without_a_command_begins_nothing() {
    let mut plugin = GenerationPlugin::init(128);
    let _ = plugin.trigger_generate(reading(900, 600), 16 * MS);
    let (id, actions) = plugin.generation();
    assert_eq!(id, None);
    assert!(actions.is_empty());
    assert!(plugin.lifecycle().pending().is_none());
    assert_eq!(plugin.lifecycle().generations_started(), 0);
}

#[test]
fn command_is_served_exactly_once() {
    let mut plugin = GenerationPlugin::init(256);
    let _ = plugin.trigger_generate(reading(900, 600), 0);
    let _ = wait_for_fire(&mut plugin, 900, 600, 25 * MS);
    let (first, _) = plugin.generation();
    let (second, actions) = plugin.generation();
    assert_eq!(first, Some(0));
    assert_eq!(second, None);
    assert!(actions.is_empty());
    assert_eq!(plugin.lifecycle().generations_started(), 1);
}

#[test]
fn regeneration_keeps_the_display_until_the_new_cells_are_ready() {
    let mut plugin = GenerationPlugin::init(256);
    let _ = plugin.trigger_generate(reading(256, 256), 0);
    let _ = wait_for_fire(&mut plugin, 256, 256, 50 * MS);
    let (id, actions) = plugin.generation();
    assert_eq!(id, Some(0));
    assert_eq!(actions, requests(256, 256, 256, 0));
    assert!(plugin.spawned(0, 10).is_empty());
    let shown = plugin.deliver(0, 0, Some(CellResult { values: Vec::new() }));
    assert_eq!(
        shown,
        vec![HostAction::ShowCell {
            container: 10,
            generation: 0,
            index: 0,
            cell: Grid::partition(ViewportSize::new(256, 256), 256).cell(0, 0).unwrap(),
            color: CellColor::Resolved,
        }]
    );
    assert_eq!(plugin.lifecycle().current().unwrap().id(), 0);

    // The viewport grows to two cells; the first regeneration is superseded
    // by a second one before any of its results is in.
    assert_eq!(plugin.trigger_generate(reading(512, 256), 16 * MS), Ok(false));
    let _ = wait_for_fire(&mut plugin, 512, 256, 50 * MS);
    let (id, actions) = plugin.generation();
    assert_eq!(id, Some(1));
    assert_eq!(actions, requests(512, 256, 256, 1));
    let _ = plugin.spawned(1, 20);
    assert_eq!(plugin.trigger_generate(reading(512, 512), 16 * MS), Ok(false));
    let _ = wait_for_fire(&mut plugin, 512, 512, 50 * MS);
    let (id, actions) = plugin.generation();
    assert_eq!(id, Some(2));
    let mut expected = vec![
        HostAction::CancelTasks { generation: 1 },
        HostAction::DestroyContainer { container: 20 },
    ];
    expected.extend(requests(512, 512, 256, 2));
    assert_eq!(actions, expected);
    let _ = plugin.spawned(2, 30);

    // Results of the superseded generation have no effect.
    assert!(plugin.deliver(1, 0, Some(CellResult { values: vec![1] })).is_empty());
    assert!(plugin.deliver(1, 1, None).is_empty());
    assert_eq!(plugin.lifecycle().current().unwrap().id(), 0);

    // The display changes with the last result of the new generation.
    for index in 0..3 {
        let actions = plugin.deliver(2, index, Some(CellResult { values: vec![7] }));
        assert_eq!(actions.len(), 1);
        assert_eq!(plugin.lifecycle().current().unwrap().id(), 0);
    }
    let actions = plugin.deliver(2, 3, None);
    assert_eq!(actions.len(), 2);
    assert_eq!(actions[1], HostAction::DestroyContainer { container: 10 });
    assert_eq!(plugin.lifecycle().current().unwrap().id(), 2);
    assert_eq!(plugin.lifecycle().phase_of(0), Some(Phase::Superseded));
    assert_eq!(plugin.lifecycle().phase_of(1), Some(Phase::Superseded));
}

#[test]
fn driver_is_found_at_the_root_of_the_library() {
    let plugin = mandelbrot_grid::GenerationPlugin::init(64);
    assert_eq!(plugin.cell_size(), 64);
    assert_eq!(plugin.lifecycle().generations_started(), 0);
}
