//! State and rules of the profile dashboard: the profile form and its fields,
//! profile snapshots, notifications, and the dashboard's list and search.
pub mod app;
pub mod form;
pub mod notification;
pub mod profile;
pub mod profile_list;
pub mod proxy_launch;
pub mod text;
