//! The coordinator's side of the service: the pipeline's data types, its
//! durable rows, the account registry, and the decision logic of the three
//! workers.

pub mod cloud;
pub mod db;
pub mod registry;
pub mod report_worker;
pub mod send_worker;
pub mod status_worker;
pub mod types;
