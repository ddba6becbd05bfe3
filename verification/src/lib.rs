pub mod chat;
pub mod claude;
pub mod files;
pub mod ids;
pub mod json;
pub mod keyed;
pub mod messages;
pub mod paths;
pub mod repos;
pub mod stream;
pub mod tasks;
pub mod terminal;
pub mod text;
pub mod tools;
