//! Tiled heatmap rendering: layout, rasterisation, hit-testing and view state
//! for several independently positioned bitmaps shown in one pixel buffer.
pub mod geometry;
pub mod colors;
pub mod data;
pub mod font;
pub mod labels;
pub mod layout;
pub mod multimap;
pub mod state;

pub use geometry::{
    BitMapPoint, BitMapVec, CoordinatePoint, CoordinateRect, CoordinateVec, KeyBoardDirection,
    MultiMapPoint, ShowPoint, ShowRect,
};
pub use colors::{BitMapDrawable, Color, ColorbarValue, Gradient};
pub use data::{BitmapData, ColorWithThickness, Data, Overlay};
pub use font::{BitMapText, Font, FontOptions};
pub use labels::CornerLabels;
pub use layout::compute_columns_rows;
pub use multimap::{
    Colorbar, DataWithMetadata, Layout, MultiMapPosition, MultimapState, RenderProblem,
    ShowMultiMap, ShowMultiMapSettings,
};
pub use state::{Event, Localization, ShowState, ShowStateSingle};
