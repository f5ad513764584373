//! The rules of visualization capture: what structure a plugin may report, how much
//! storage a layout reserves, and which callback answers a capture accepts.
//!
//! Storage is sized once, when a song opens; every capture afterwards must fit in it.

use vstd::prelude::*;

use crate::ffi::playback::{
    RVChannelDesc, RVColumnDesc, RVScrollMode, RVTrackerPosition, RVVizCaps, RVVizInfo,
};
use crate::session::try_reserve_exact;

verus! {

/// Default number of samples reserved per scope channel.
pub const DEFAULT_SCOPE_SAMPLE_BUDGET: u32 = 2_048;
/// Default maximum number of pattern rows captured per frame.
pub const DEFAULT_PATTERN_ROW_BUDGET: u32 = 64;
/// Maximum pattern-channel count accepted from a plugin.
pub const MAX_PATTERN_CHANNELS: u32 = 64;
/// Maximum scope-channel count accepted from a plugin.
pub const MAX_SCOPE_CHANNELS: u32 = 64;
/// Maximum pattern-column count accepted from a plugin.
pub const MAX_PATTERN_COLUMNS: u32 = 16;

/// Fixed storage limits selected before visualization capture starts.
#[derive(Clone, Copy, Debug, PartialEq, Eq, Structural)]
pub struct VisualizationConfig {
    /// Maximum samples captured for each scope channel.
    pub scope_sample_budget: u32,
    /// Maximum pattern rows captured in one snapshot.
    pub pattern_row_budget: u32,
}

impl Default for VisualizationConfig {
    fn default() -> (config: Self)
        ensures
            config.scope_sample_budget == DEFAULT_SCOPE_SAMPLE_BUDGET,
            config.pattern_row_budget == DEFAULT_PATTERN_ROW_BUDGET,
    {
        VisualizationConfig {
            scope_sample_budget: DEFAULT_SCOPE_SAMPLE_BUDGET,
            pattern_row_budget: DEFAULT_PATTERN_ROW_BUDGET,
        }
    }
}

/// Why visualization preparation or capture failed.
#[derive(Debug, Clone, Copy, PartialEq, Eq)]
pub enum VisualizationError {
    /// The plugin reported a scroll-mode discriminant unknown to this ABI version.
    UnknownScrollMode(u32),
    /// A callback reported more values than fit in its output buffer.
    CountOverrun { query: &'static str, returned: u32, capacity: u32 },
    /// A fixed-size callback reported fewer values than requested.
    CountUnderfill { query: &'static str, returned: u32, expected: u32 },
    /// Derived visualization dimensions overflowed their ABI or host representation.
    DimensionOverflow,
    /// The plugin reported a tracker window whose upper bound precedes its lower bound.
    InvalidTrackerWindow { window_lo: u32, window_hi: u32 },
    /// A plugin-reported dimension exceeds the host limit.
    DimensionLimit { dimension: &'static str, actual: u32, limit: u32 },
    /// Visualization was prepared earlier with different storage limits.
    ConfigurationChanged,
    /// Capture was requested before visualization preparation.
    NotPrepared,
    /// The supplied snapshot was allocated for another layout.
    LayoutMismatch,
    /// A named snapshot buffer could not be reserved.
    Allocation(&'static str),
}

/// A buffer of `count` copies of `zero`, reserved up front; fails as an allocation of the
/// `name` buffer where the room cannot be reserved. An empty buffer needs no room.
pub fn boxed_buffer<T: Copy>(count: usize, zero: T, name: &'static str) -> (buffer: Result<Vec<T>, VisualizationError>)
    ensures
        count == 0 ==> buffer is Ok,
        match buffer {
            Ok(values) => values@.len() == count && forall|i: int| 0 <= i < count ==> values@[i] == zero,
            Err(e) => e == VisualizationError::Allocation(name),
        },
{
    let mut values: Vec<T> = Vec::new();
    if !try_reserve_exact(&mut values, count) {
        return Err(VisualizationError::Allocation(name));
    }
    let mut filled: usize = 0;
    while filled < count
        invariant
            filled <= count,
            values@.len() == filled,
            forall|i: int| 0 <= i < filled ==> values@[i] == zero,
        decreases count - filled,
    {
        values.push(zero);
        filled = filled + 1;
    }
    Ok(values)
}

/// What `check_exact` answers for a fixed-size callback that reported `returned` values
/// where `expected` were requested.
pub open spec fn exact_verdict(name: &'static str, returned: u32, expected: u32) -> Result<(), VisualizationError> {
    if returned > expected {
        Err(VisualizationError::CountOverrun { query: name, returned, capacity: expected })
    } else if returned != expected {
        Err(VisualizationError::CountUnderfill { query: name, returned, expected })
    } else {
        Ok(())
    }
}

/// Holds a fixed-size callback to exactly the count it was asked for.
pub fn check_exact(name: &'static str, returned: u32, expected: u32) -> (checked: Result<(), VisualizationError>)
    ensures
        checked == exact_verdict(name, returned, expected),
{
    if returned > expected {
        return Err(VisualizationError::CountOverrun { query: name, returned, capacity: expected });
    }
    if returned != expected {
        return Err(VisualizationError::CountUnderfill { query: name, returned, expected });
    }
    Ok(())
}

/// What `check_limit` answers for a reported dimension.
pub open spec fn limit_verdict(dimension: &'static str, actual: u32, limit: u32) -> Result<(), VisualizationError> {
    if actual > limit {
        Err(VisualizationError::DimensionLimit { dimension, actual, limit })
    } else {
        Ok(())
    }
}

/// Holds a plugin-reported dimension to the host's limit for it.
pub fn check_limit(dimension: &'static str, actual: u32, limit: u32) -> (checked: Result<(), VisualizationError>)
    ensures
        checked == limit_verdict(dimension, actual, limit),
{
    if actual > limit {
        return Err(VisualizationError::DimensionLimit { dimension, actual, limit });
    }
    Ok(())
}

/// The pattern cells a layout reserves: every budgeted row of every channel and column.
pub open spec fn cell_count(rows: int, channels: int, columns: int) -> int {
    rows * channels * columns
}

/// What a layout is sized from, once the plugin's structure is accepted.
#[derive(Clone, Copy, Debug, PartialEq, Eq, Structural)]
pub struct LayoutPlan {
    pub scroll_mode: RVScrollMode,
    pub cell_capacity: usize,
}

/// What `plan_layout` answers for the structure a plugin reported.
pub open spec fn plan_verdict(info: RVVizInfo, config: VisualizationConfig) -> Result<LayoutPlan, VisualizationError> {
    if info.scroll_mode > 1 {
        Err(VisualizationError::UnknownScrollMode(info.scroll_mode))
    } else if info.pattern_channel_count > MAX_PATTERN_CHANNELS {
        Err(VisualizationError::DimensionLimit {
            dimension: "pattern channel count",
            actual: info.pattern_channel_count,
            limit: MAX_PATTERN_CHANNELS,
        })
    } else if info.scope_channel_count > MAX_SCOPE_CHANNELS {
        Err(VisualizationError::DimensionLimit {
            dimension: "scope channel count",
            actual: info.scope_channel_count,
            limit: MAX_SCOPE_CHANNELS,
        })
    } else if info.column_count > MAX_PATTERN_COLUMNS {
        Err(VisualizationError::DimensionLimit {
            dimension: "column count",
            actual: info.column_count,
            limit: MAX_PATTERN_COLUMNS,
        })
    } else {
        let cells = cell_count(
            config.pattern_row_budget as int,
            info.pattern_channel_count as int,
            info.column_count as int,
        );
        if cells > u32::MAX {
            Err(VisualizationError::DimensionOverflow)
        } else {
            Ok(LayoutPlan {
                scroll_mode: if info.scroll_mode == 0 {
                    RVScrollMode::Synchronized
                } else {
                    RVScrollMode::PerChannel
                },
                cell_capacity: cells as usize,
            })
        }
    }
}

/// An accepted plan keeps the scroll mode the plugin reported: its raw value is the one
/// in the structure, so per-channel scrolling stays per-channel. Every mode the ABI
/// defines is accepted when the counts are within their limits and the cells fit.
pub proof fn lemma_plan_keeps_the_scroll_mode(info: RVVizInfo, config: VisualizationConfig)
    ensures
        plan_verdict(info, config) matches Ok(plan) ==> plan.scroll_mode.raw() == info.scroll_mode,
        info.scroll_mode > 1 ==> plan_verdict(info, config) == Err::<LayoutPlan, VisualizationError>(
            VisualizationError::UnknownScrollMode(info.scroll_mode),
        ),
        plan_verdict(info, config) matches Ok(plan) ==> plan.cell_capacity
            == config.pattern_row_budget * info.pattern_channel_count * info.column_count,
        plan_verdict(info, config) is Ok ==> info.pattern_channel_count <= MAX_PATTERN_CHANNELS
            && info.scope_channel_count <= MAX_SCOPE_CHANNELS && info.column_count
            <= MAX_PATTERN_COLUMNS,
        (info.scroll_mode <= 1 && info.pattern_channel_count <= MAX_PATTERN_CHANNELS
            && info.scope_channel_count <= MAX_SCOPE_CHANNELS && info.column_count
            <= MAX_PATTERN_COLUMNS && config.pattern_row_budget * info.pattern_channel_count
            * info.column_count <= u32::MAX) ==> plan_verdict(info, config) is Ok,
{
}

/// Accepts or refuses the structure a plugin reported, and sizes the pattern storage:
/// the scroll mode must be known, each count within its limit, and the cell storage
/// countable in the ABI's 32 bits.
pub fn plan_layout(info: &RVVizInfo, config: VisualizationConfig) -> (plan: Result<LayoutPlan, VisualizationError>)
    ensures
        plan == plan_verdict(*info, config),
{
    let scroll_mode = match RVScrollMode::from_raw(info.scroll_mode) {
        Some(mode) => mode,
        None => return Err(VisualizationError::UnknownScrollMode(info.scroll_mode)),
    };
    check_limit("pattern channel count", info.pattern_channel_count, MAX_PATTERN_CHANNELS)?;
    check_limit("scope channel count", info.scope_channel_count, MAX_SCOPE_CHANNELS)?;
    check_limit("column count", info.column_count, MAX_PATTERN_COLUMNS)?;
    let cell_capacity = match checked_cells(
        config.pattern_row_budget,
        info.pattern_channel_count as usize,
        info.column_count as usize,
    ) {
        Some(count) => count,
        None => return Err(VisualizationError::DimensionOverflow),
    };
    Ok(LayoutPlan { scroll_mode, cell_capacity })
}

/// `rows * channels * columns` when it fits in a `u32`.
fn checked_cells(rows: u32, channels: usize, columns: usize) -> (count: Option<usize>)
    ensures
        match count {
            Some(n) => n == cell_count(rows as int, channels as int, columns as int) && n <= u32::MAX,
            None => cell_count(rows as int, channels as int, columns as int) > u32::MAX,
        },
{
    let rows = rows as u64;
    let channels = channels as u64;
    let columns = columns as u64;
    if channels == 0 || columns == 0 {
        assert(cell_count(rows as int, channels as int, columns as int) == 0) by (nonlinear_arith)
            requires
                channels == 0 || columns == 0,
        ;
        return Some(0);
    }
    if rows > u32::MAX as u64 / channels {
        assert(cell_count(rows as int, channels as int, columns as int) > u32::MAX) by (nonlinear_arith)
            requires
                rows > u32::MAX as u64 / channels,
                channels >= 1,
                columns >= 1,
        ;
        return None;
    }
    assert(rows * channels <= u32::MAX) by (nonlinear_arith)
        requires
            rows <= u32::MAX as u64 / channels,
            channels >= 1,
    ;
    let per_column = rows * channels;
    if per_column > u32::MAX as u64 / columns {
        assert(cell_count(rows as int, channels as int, columns as int) > u32::MAX) by (nonlinear_arith)
            requires
                per_column > u32::MAX as u64 / columns,
                per_column == rows * channels,
                columns >= 1,
        ;
        return None;
    }
    assert(per_column * columns <= u32::MAX) by (nonlinear_arith)
        requires
            per_column <= u32::MAX as u64 / columns,
            columns >= 1,
    ;
    Some((per_column * columns) as usize)
}

/// Whether the capability bits `caps` include `cap`.
pub open spec fn has_cap(caps: u32, cap: u32) -> bool {
    caps & cap != 0
}

/// The storage one snapshot of a layout reserves, in elements of each buffer. `scope` is
/// `None` where the scope storage cannot be counted in a `usize`, which refuses the
/// snapshot whether or not the layout captures scopes.
#[derive(Debug, Clone, Copy, PartialEq, Eq)]
pub struct SnapshotPlan {
    pub channel_rows: usize,
    pub cells: usize,
    pub scope_counts: usize,
    pub scope: Option<usize>,
    pub vu: usize,
}

/// Which plugin callbacks one capture makes, in the order it makes them after the
/// position query: per-channel rows, the pattern cells of the window, the scope samples
/// of each scope channel, then the VU levels.
#[derive(Debug, Clone, Copy, PartialEq, Eq, Structural)]
pub struct CaptureSteps {
    pub channel_rows: bool,
    pub cells: bool,
    pub scope: bool,
    pub vu: bool,
}

/// Immutable visualization structure queried once after a song opens.
#[derive(Debug)]
pub struct VizLayout {
    /// Capability bits reported by the plugin.
    pub caps: u32,
    /// How tracker rows advance across channels.
    pub scroll_mode: RVScrollMode,
    /// Pattern column descriptors.
    pub columns: Vec<RVColumnDesc>,
    /// Pattern channel descriptors.
    pub pattern_channels: Vec<RVChannelDesc>,
    /// Scope channel descriptors.
    pub scope_channels: Vec<RVChannelDesc>,
    config: VisualizationConfig,
    cell_capacity: usize,
}

impl VizLayout {
    /// The storage limits the layout was prepared with.
    pub closed spec fn spec_config(&self) -> VisualizationConfig {
        self.config
    }

    /// The pattern cells every snapshot of this layout holds.
    pub closed spec fn spec_cell_capacity(&self) -> usize {
        self.cell_capacity
    }

    /// The capability bits the plugin reported.
    pub closed spec fn spec_caps(&self) -> u32 {
        self.caps
    }

    /// How tracker rows advance across channels.
    pub closed spec fn spec_scroll_mode(&self) -> RVScrollMode {
        self.scroll_mode
    }

    /// The pattern column descriptors.
    pub closed spec fn column_descs(&self) -> Seq<RVColumnDesc> {
        self.columns@
    }

    /// The pattern channel descriptors.
    pub closed spec fn pattern_channel_descs(&self) -> Seq<RVChannelDesc> {
        self.pattern_channels@
    }

    /// The scope channel descriptors.
    pub closed spec fn scope_channel_descs(&self) -> Seq<RVChannelDesc> {
        self.scope_channels@
    }

    /// The cell storage is every budgeted row of every pattern channel and column, and
    /// its count fits the ABI's 32 bits.
    pub closed spec fn well_formed(&self) -> bool {
        &&& self.spec_cell_capacity() == cell_count(
            self.spec_config().pattern_row_budget as int,
            self.pattern_channels@.len() as int,
            self.columns@.len() as int,
        )
        &&& self.spec_cell_capacity() <= u32::MAX
    }

    /// Assembles a layout from the descriptors a plugin filled, refusing one whose cell
    /// storage could not be counted in 32 bits.
    pub fn new(
        caps: u32,
        scroll_mode: RVScrollMode,
        config: VisualizationConfig,
        columns: Vec<RVColumnDesc>,
        pattern_channels: Vec<RVChannelDesc>,
        scope_channels: Vec<RVChannelDesc>,
    ) -> (layout: Result<VizLayout, VisualizationError>)
        ensures
            match layout {
                Ok(l) => {
                    &&& l.well_formed()
                    &&& l.spec_caps() == caps
                    &&& l.spec_scroll_mode() == scroll_mode
                    &&& l.spec_config() == config
                    &&& l.column_descs() == columns@
                    &&& l.pattern_channel_descs() == pattern_channels@
                    &&& l.scope_channel_descs() == scope_channels@
                },
                Err(e) => {
                    &&& e == VisualizationError::DimensionOverflow
                    &&& cell_count(
                        config.pattern_row_budget as int,
                        pattern_channels@.len() as int,
                        columns@.len() as int,
                    ) > u32::MAX
                },
            },
    {
        let cell_capacity = match checked_cells(
            config.pattern_row_budget,
            pattern_channels.len(),
            columns.len(),
        ) {
            Some(count) => count,
            None => return Err(VisualizationError::DimensionOverflow),
        };
        Ok(VizLayout {
            caps,
            scroll_mode,
            columns,
            pattern_channels,
            scope_channels,
            config,
            cell_capacity,
        })
    }

    /// Returns the storage limits used to prepare this layout.
    pub fn config(&self) -> (config: VisualizationConfig)
        ensures
            config == self.spec_config(),
    {
        self.config
    }

    /// The pattern cells every snapshot of this layout holds.
    pub fn cell_capacity(&self) -> (capacity: usize)
        ensures
            capacity == self.spec_cell_capacity(),
    {
        self.cell_capacity
    }

    /// What a snapshot of this layout reserves: a row per pattern channel when rows
    /// scroll per channel, every budgeted cell, and a count, the budgeted samples and a
    /// level per scope channel where the layout captures scopes and VU levels.
    pub fn snapshot_plan(&self) -> (plan: SnapshotPlan)
        ensures
            plan.channel_rows == if self.spec_scroll_mode() == RVScrollMode::PerChannel {
                self.pattern_channel_descs().len()
            } else {
                0
            },
            plan.cells == self.spec_cell_capacity(),
            plan.scope_counts == if has_cap(self.spec_caps(), RVVizCaps::SCOPE) {
                self.scope_channel_descs().len()
            } else {
                0
            },
            plan.scope == if self.scope_channel_descs().len() * self.spec_config().scope_sample_budget
                > usize::MAX {
                None
            } else if has_cap(self.spec_caps(), RVVizCaps::SCOPE) {
                Some((self.scope_channel_descs().len() * self.spec_config().scope_sample_budget) as usize)
            } else {
                Some(0usize)
            },
            plan.vu == if has_cap(self.spec_caps(), RVVizCaps::VU) {
                self.scope_channel_descs().len()
            } else {
                0
            },
    {
        let scopes = self.caps & RVVizCaps::SCOPE != 0;
        let channel_rows = match self.scroll_mode {
            RVScrollMode::PerChannel => self.pattern_channels.len(),
            _ => 0,
        };
        let scope = match self.scope_capacity() {
            Some(total) => if scopes {
                Some(total)
            } else {
                Some(0)
            },
            None => None,
        };
        SnapshotPlan {
            channel_rows,
            cells: self.cell_capacity,
            scope_counts: if scopes {
                self.scope_channels.len()
            } else {
                0
            },
            scope,
            vu: if self.caps & RVVizCaps::VU != 0 {
                self.scope_channels.len()
            } else {
                0
            },
        }
    }

    /// What a capture asks the plugin for, once it knows whether the plugin reported a
    /// tracker position: rows where they scroll per channel, cells where a position came
    /// back and the layout captures cells, scopes and VU levels where the layout does.
    pub fn capture_steps(&self, has_position: bool) -> (steps: CaptureSteps)
        ensures
            steps.channel_rows == (self.spec_scroll_mode() == RVScrollMode::PerChannel),
            steps.cells == (has_position && has_cap(self.spec_caps(), RVVizCaps::PATTERN_CELLS)),
            steps.scope == has_cap(self.spec_caps(), RVVizCaps::SCOPE),
            steps.vu == has_cap(self.spec_caps(), RVVizCaps::VU),
    {
        CaptureSteps {
            channel_rows: match self.scroll_mode {
                RVScrollMode::PerChannel => true,
                _ => false,
            },
            cells: has_position && self.caps & RVVizCaps::PATTERN_CELLS != 0,
            scope: self.caps & RVVizCaps::SCOPE != 0,
            vu: self.caps & RVVizCaps::VU != 0,
        }
    }

    /// Samples every scope channel of a snapshot reserves in total.
    pub fn scope_capacity(&self) -> (capacity: Option<usize>)
        ensures
            match capacity {
                Some(n) => n == self.scope_channel_descs().len() * self.spec_config().scope_sample_budget,
                None => self.scope_channel_descs().len() * self.spec_config().scope_sample_budget > usize::MAX,
            },
    {
        self.scope_channels.len().checked_mul(self.config.scope_sample_budget as usize)
    }

    /// The cells a capture asks for at tracker `position`: every row of its window for
    /// every pattern channel and column. The window must not run backwards, its rows must
    /// fit the row budget, and the count its callback is offered fits the ABI's 32 bits.
    pub fn cell_window(&self, position: &RVTrackerPosition) -> (cells: Result<u32, VisualizationError>)
        requires
            self.well_formed(),
        ensures
            cells == window_verdict(
                *position,
                self.spec_config().pattern_row_budget,
                self.pattern_channel_descs().len() as int,
                self.column_descs().len() as int,
            ),
            cells matches Ok(n) ==> n <= self.spec_cell_capacity(),
    {
        if position.window_hi < position.window_lo {
            return Err(VisualizationError::InvalidTrackerWindow {
                window_lo: position.window_lo,
                window_hi: position.window_hi,
            });
        }
        let rows = position.window_hi - position.window_lo;
        check_limit("pattern row count", rows, self.config.pattern_row_budget)?;
        let count = match checked_cells(rows, self.pattern_channels.len(), self.columns.len()) {
            Some(count) => count,
            None => return Err(VisualizationError::DimensionOverflow),
        };
        proof {
            let c = self.pattern_channels@.len() as int;
            let k = self.columns@.len() as int;
            let b = self.config.pattern_row_budget as int;
            assert(cell_count(rows as int, c, k) <= cell_count(b, c, k)) by (nonlinear_arith)
                requires
                    0 <= rows <= b,
                    c >= 0,
                    k >= 0,
            ;
        }
        Ok(count as u32)
    }
}

/// What `cell_window` answers at tracker `position`, for a layout with `channels` pattern
/// channels, `columns` columns and a budget of `row_budget` rows.
pub open spec fn window_verdict(position: RVTrackerPosition, row_budget: u32, channels: int, columns: int) -> Result<u32, VisualizationError> {
    if position.window_hi < position.window_lo {
        Err(VisualizationError::InvalidTrackerWindow {
            window_lo: position.window_lo,
            window_hi: position.window_hi,
        })
    } else {
        let rows = (position.window_hi - position.window_lo) as u32;
        if rows > row_budget {
            Err(VisualizationError::DimensionLimit {
                dimension: "pattern row count",
                actual: rows,
                limit: row_budget,
            })
        } else if cell_count(rows as int, channels, columns) > u32::MAX {
            Err(VisualizationError::DimensionOverflow)
        } else {
            Ok(cell_count(rows as int, channels, columns) as u32)
        }
    }
}

/// What a capture accepts from the scope callback: at most the per-channel budget.
pub open spec fn scope_verdict(returned: u32, budget: u32) -> Result<u32, VisualizationError> {
    if returned > budget {
        Err(VisualizationError::CountOverrun { query: "scope_samples", returned, capacity: budget })
    } else {
        Ok(returned)
    }
}

/// Holds one scope channel's answer to the per-channel sample budget.
pub fn check_scope_count(returned: u32, budget: u32) -> (count: Result<u32, VisualizationError>)
    ensures
        count == scope_verdict(returned, budget),
{
    if returned > budget {
        return Err(VisualizationError::CountOverrun {
            query: "scope_samples",
            returned,
            capacity: budget,
        });
    }
    Ok(returned)
}

/// How far a session has prepared visualization.
#[derive(Clone, Copy, Debug, PartialEq, Eq, Structural)]
pub enum VisualizationPhase {
    /// Nothing was asked yet.
    Unprepared,
    /// The plugin reported no visualization when prepared with this configuration.
    Absent(VisualizationConfig),
    /// A layout was prepared with this configuration.
    Ready(VisualizationConfig),
}

/// What a request to prepare visualization does.
#[derive(Clone, Copy, Debug, PartialEq, Eq, Structural)]
pub enum PrepareAction {
    /// Ask the plugin for its structure now.
    Query,
    /// Hand back the layout prepared earlier.
    ReuseLayout,
    /// Report again that the plugin has no visualization.
    ReportAbsent,
}

/// Decides a request to prepare visualization with `config`: the first request queries
/// the plugin, and later ones must name the same configuration, which gets the earlier
/// answer again.
pub fn prepare_action(phase: VisualizationPhase, config: VisualizationConfig) -> (action: Result<PrepareAction, VisualizationError>)
    ensures
        action == match phase {
            VisualizationPhase::Unprepared => Ok(PrepareAction::Query),
            VisualizationPhase::Ready(prepared) => if prepared == config {
                Ok(PrepareAction::ReuseLayout)
            } else {
                Err(VisualizationError::ConfigurationChanged)
            },
            VisualizationPhase::Absent(prepared) => if prepared == config {
                Ok(PrepareAction::ReportAbsent)
            } else {
                Err(VisualizationError::ConfigurationChanged)
            },
        },
{
    match phase {
        VisualizationPhase::Unprepared => Ok(PrepareAction::Query),
        VisualizationPhase::Ready(prepared) => if prepared == config {
            Ok(PrepareAction::ReuseLayout)
        } else {
            Err(VisualizationError::ConfigurationChanged)
        },
        VisualizationPhase::Absent(prepared) => if prepared == config {
            Ok(PrepareAction::ReportAbsent)
        } else {
            Err(VisualizationError::ConfigurationChanged)
        },
    }
}

} // verus!
