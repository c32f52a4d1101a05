pub mod command;
pub mod config;
pub mod dispatcher;
pub mod event;
pub mod exchange;
pub mod notifier;
pub mod observer;
pub mod pages;
pub mod price;
pub mod requests;
pub mod schema;
pub mod store;
pub mod text;
pub mod worker;
