use vstd::prelude::*;

pub mod text;
pub mod urls;
pub mod stream;
pub mod models;
pub mod db;
pub mod ids;
pub mod bots;
pub mod schema;
pub mod client;
pub mod encoding;
pub mod fetch;
pub mod chat;
pub mod messages;
pub mod topics;
pub mod attachments;
pub mod transfer;
pub mod turn;

verus! {
}
