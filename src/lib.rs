//! Level-of-detail plotting core for large, x-ordered series: a min/max
//! mipmap pyramid, a range finder, a level selector, a point filter and a
//! render assembler that emits plain polylines.
//!
//! Coordinates are `i64` keys. A host that plots `f64` values maps each value
//! through an order-preserving encoding before handing it in; every operation
//! here only compares coordinates, so the results map back exactly.

mod filter;
mod logs;
mod mipmap;
mod point;
mod range;
mod render;
mod select;
mod series;
mod status;
mod time;

pub use filter::{extract_range_points, filter_plot_points, FILTER_THRESHOLD};
pub use logs::{LogKind, SupportedLogs};
pub use mipmap::{MipMap, MIPMAP_MIN_LEVEL_LEN};
pub use point::{Color, Point};
pub use range::{index_range, partition_point_x};
pub use render::{
    envelope_quads, plot_labels, plot_lines, PlotLabel, Polyline, StoredPlotLabels,
};
pub use select::{MipMapConfiguration, TARGET_POINTS_PER_PIXEL};
pub use series::PlotValues;
pub use status::{MotorState, StatusLog, StatusLogEntry};
pub use time::parse_timestamp;
