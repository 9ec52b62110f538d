//! Client library for the Vimeo REST API: a shared authenticated transport,
//! uniform request construction, typed records with a verified JSON codec,
//! and a facade handing out the resource services.

pub mod client;
pub mod error;
pub mod json;
pub mod records;
pub mod service;
pub mod users;
pub mod videos;
pub mod vimeo;
