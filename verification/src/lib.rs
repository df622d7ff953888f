pub mod text;
pub mod status;
pub mod databasespec;
pub mod keyed;
pub mod json;
pub mod credentials;
pub mod store;
pub mod store_laws;
pub mod database;
pub mod scan;
pub mod properties;
pub mod providers;
pub mod gameserver;
pub mod control;
pub mod transport;
pub mod handlers;
pub mod integrations;
pub mod deploy;
pub mod session;
pub mod frontend;
pub mod orchestration;
pub mod panel_laws;
