//! Developer health scoring for GitHub profiles: per-repository checks,
//! profile scores, recommendations, and the decisions of the dashboard.
pub mod api;
pub mod clock;
pub mod order;
pub mod score;
pub mod text;
pub mod ui;
