//! The pages of the ordering workflow.

pub mod person_select_page;
