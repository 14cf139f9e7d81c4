//! Keeps a machine awake while an agent in a Herdr session is working.
pub mod codec;
pub mod decode;
pub mod driver;
pub mod entries;
pub mod json;
pub mod launch;
pub mod laws;
pub mod messages;
pub mod model;
pub mod monitor;
pub mod replies;
pub mod requests;
pub mod settings;
pub mod startup;
pub mod statuses;
pub mod text;
