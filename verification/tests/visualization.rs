use retrovert_host::ffi::playback::{
    RVChannelDesc, RVColumnDesc, RVScrollMode, RVTrackerPosition, RVVizCaps, RVVizInfo,
};
use retrovert_host::visualization::{
    boxed_buffer, CaptureSteps, check_exact, check_limit, check_scope_count, plan_layout, prepare_action, LayoutPlan,
    PrepareAction, SnapshotPlan, VisualizationConfig, VisualizationError, VisualizationPhase, VizLayout,
    MAX_PATTERN_CHANNELS,
};

fn info(pattern_channels: u32, scope_channels: u32, columns: u32) -> RVVizInfo {
    RVVizInfo {
        caps: RVVizCaps::PATTERN_CELLS | RVVizCaps::SCOPE | RVVizCaps::VU,
        scroll_mode: RVScrollMode::Synchronized.to_raw(),
        pattern_channel_count: pattern_channels,
        scope_channel_count: scope_channels,
        column_count: columns,
    }
}

fn layout(config: VisualizationConfig, pattern_channels: usize, columns: usize) -> VizLayout {
    let column = RVColumnDesc {
        label: [0; 16],
        char_width: 3,
        kind: 0,
    };
    let channel = RVChannelDesc {
        name: [0; 24],
        scope_width: 1,
    };
    VizLayout::new(
        RVVizCaps::PATTERN_CELLS,
        RVScrollMode::Synchronized,
        config,
        vec![column; columns],
        vec![channel; pattern_channels],
        vec![channel; 2],
    )
    .expect("layout")
}

fn position(window_lo: u32, window_hi: u32) -> RVTrackerPosition {
    RVTrackerPosition {
        order: 1,
        pattern: 2,
        row: 4,
        window_lo,
        window_hi,
    }
}

#[test]
fn invalid_structure_values_are_rejected() {
    let mut unknown = info(0, 0, 0);
    unknown.scroll_mode = 99;
    assert_eq!(
        plan_layout(&unknown, VisualizationConfig::default()),
        Err(VisualizationError::UnknownScrollMode(99))
    );

    assert!(matches!(
        plan_layout(&info(65_536, 0, 65_536), VisualizationConfig::default()),
        Err(VisualizationError::DimensionLimit { .. })
    ));

    let layout = layout(VisualizationConfig::default(), 2, 3);
    assert_eq!(
        layout.cell_window(&position(2, 1)),
        Err(VisualizationError::InvalidTrackerWindow {
            window_lo: 2,
            window_hi: 1,
        })
    );
}

#[test]
fn scope_budget_and_plugin_counts_are_enforced() {
    assert_eq!(VisualizationConfig::default().scope_sample_budget, 2_048);
    assert_eq!(check_scope_count(7, 7), Ok(7));
    assert_eq!(
        check_scope_count(8, 7),
        Err(VisualizationError::CountOverrun {
            query: "scope_samples",
            returned: 8,
            capacity: 7,
        })
    );
    assert_eq!(
        check_exact("tracker_columns", 2, 3),
        Err(VisualizationError::CountUnderfill {
            query: "tracker_columns",
            returned: 2,
            expected: 3,
        })
    );
}

#[test]
fn each_dimension_is_held_to_its_own_limit() {
    let config = VisualizationConfig::default();
    assert_eq!(
        plan_layout(&info(MAX_PATTERN_CHANNELS + 1, 0, 0), config),
        Err(VisualizationError::DimensionLimit {
            dimension: "pattern channel count",
            actual: 65,
            limit: 64,
        })
    );
    assert_eq!(
        plan_layout(&info(0, 65, 0), config),
        Err(VisualizationError::DimensionLimit {
            dimension: "scope channel count",
            actual: 65,
            limit: 64,
        })
    );
    assert_eq!(
        plan_layout(&info(0, 0, 17), config),
        Err(VisualizationError::DimensionLimit {
            dimension: "column count",
            actual: 17,
            limit: 16,
        })
    );
    assert_eq!(check_limit("rows", 3, 3), Ok(()));
}

#[test]
fn a_layout_reserves_every_budgeted_cell() {
    let config = VisualizationConfig::default();
    assert_eq!(
        plan_layout(&info(2, 2, 3), config),
        Ok(LayoutPlan {
            scroll_mode: RVScrollMode::Synchronized,
            cell_capacity: 64 * 2 * 3,
        })
    );
    let huge = VisualizationConfig {
        scope_sample_budget: 1,
        pattern_row_budget: u32::MAX,
    };
    assert_eq!(
        plan_layout(&info(64, 0, 16), huge),
        Err(VisualizationError::DimensionOverflow)
    );
    let layout = layout(config, 2, 3);
    assert_eq!(layout.cell_capacity(), 384);
    assert_eq!(layout.config(), config);
    assert_eq!(layout.scope_capacity(), Some(2 * 2048));
}

#[test]
fn a_capture_window_fits_the_prepared_cells() {
    let layout = layout(VisualizationConfig::default(), 2, 3);
    assert_eq!(layout.cell_window(&position(0, 8)), Ok(48));
    assert_eq!(layout.cell_window(&position(5, 5)), Ok(0));
    assert_eq!(
        layout.cell_window(&position(0, 65)),
        Err(VisualizationError::DimensionLimit {
            dimension: "pattern row count",
            actual: 65,
            limit: 64,
        })
    );
    assert_eq!(check_exact("tracker_cells", 48, 48), Ok(()));
    assert_eq!(
        check_exact("tracker_cells", 49, 48),
        Err(VisualizationError::CountOverrun {
            query: "tracker_cells",
            returned: 49,
            capacity: 48,
        })
    );
}

#[test]
fn preparing_again_needs_the_same_configuration() {
    let config = VisualizationConfig::default();
    let other = VisualizationConfig {
        scope_sample_budget: 64,
        ..config
    };
    assert_eq!(prepare_action(VisualizationPhase::Unprepared, config), Ok(PrepareAction::Query));
    assert_eq!(
        prepare_action(VisualizationPhase::Ready(config), config),
        Ok(PrepareAction::ReuseLayout)
    );
    assert_eq!(
        prepare_action(VisualizationPhase::Absent(config), config),
        Ok(PrepareAction::ReportAbsent)
    );
    assert_eq!(
        prepare_action(VisualizationPhase::Ready(config), other),
        Err(VisualizationError::ConfigurationChanged)
    );
    assert_eq!(
        prepare_action(VisualizationPhase::Absent(config), other),
        Err(VisualizationError::ConfigurationChanged)
    );
}

#[test]
fn a_buffer_holds_its_count_of_zeroes() {

    assert_eq!(boxed_buffer(3, 7_u32, "cells"), Ok(vec![7, 7, 7]));
    assert_eq!(boxed_buffer::<u8>(0, 0, "cells"), Ok(vec![]));
}

#[test]
fn a_snapshot_reserves_what_its_layout_captures() {
    let config = VisualizationConfig { scope_sample_budget: 7, pattern_row_budget: 4 };
    let column = RVColumnDesc { label: [0; 16], char_width: 2, kind: 0 };
    let channel = RVChannelDesc { name: [0; 24], scope_width: 1 };
    let full = VizLayout::new(
        RVVizCaps::PATTERN_CELLS | RVVizCaps::SCOPE | RVVizCaps::VU,
        RVScrollMode::PerChannel,
        config,
        vec![column; 2],
        vec![channel; 3],
        vec![channel; 5],
    )
    .expect("layout");
    assert_eq!(
        full.snapshot_plan(),
        SnapshotPlan { channel_rows: 3, cells: 4 * 3 * 2, scope_counts: 5, scope: Some(35), vu: 5 }
    );

    let bare = VizLayout::new(0, RVScrollMode::Synchronized, config, vec![column; 2], vec![channel; 3], vec![channel; 5])
        .expect("layout");
    assert_eq!(
        bare.snapshot_plan(),
        SnapshotPlan { channel_rows: 0, cells: 4 * 3 * 2, scope_counts: 0, scope: Some(0), vu: 0 }
    );
    assert!(boxed_buffer(0, 0u8, "empty").expect("nothing to reserve").is_empty());
}

#[test]
fn a_capture_asks_only_for_what_its_layout_captures() {
    let config = VisualizationConfig { scope_sample_budget: 7, pattern_row_budget: 4 };
    let column = RVColumnDesc { label: [0; 16], char_width: 2, kind: 0 };
    let channel = RVChannelDesc { name: [0; 24], scope_width: 1 };
    let layout = VizLayout::new(
        RVVizCaps::PATTERN_CELLS | RVVizCaps::VU,
        RVScrollMode::PerChannel,
        config,
        vec![column; 1],
        vec![channel; 1],
        vec![channel; 1],
    )
    .expect("layout");
    assert_eq!(
        layout.capture_steps(true),
        CaptureSteps { channel_rows: true, cells: true, scope: false, vu: true }
    );
    assert_eq!(
        layout.capture_steps(false),
        CaptureSteps { channel_rows: true, cells: false, scope: false, vu: true }
    );
}
