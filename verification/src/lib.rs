mod assoc;
pub mod auth;
pub mod bus;
pub mod bus_laws;
pub mod contact;
pub mod event;
pub mod handlers;
pub mod ids;
pub mod intel;
pub mod models;
pub mod notify;
pub mod pipeline;
pub mod search;
pub mod stats;
pub mod stream;
pub mod text;
pub mod upload;
pub mod visitor;
