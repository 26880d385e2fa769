//! GitHub profile data as the scorer and the dashboard read it, and the
//! decisions that fetching it involves.
pub mod client;
pub mod types;

pub use types::{ContributionDay, GithubData, GithubUser, LicenseInfo, Repository};
