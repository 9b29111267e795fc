//! Logic of a Telegram bot that watches WarCraft III lobbies: subscription
//! matching, quiet hours, lobby monitoring and message texts.
pub mod text;
pub mod quiet;
pub mod norm;
pub mod loc;
pub mod api;
pub mod clock;
pub mod db;
pub mod pinger;
pub mod watcher;
pub mod handlers;
pub mod poller;
pub mod startup;
