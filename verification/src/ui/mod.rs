//! The decisions of the terminal dashboard: colours, the heatmap, the
//! panels' figures, and how keys change the dashboard's state.
pub mod app;
pub mod heatmap;
pub mod theme;
pub mod widgets;
