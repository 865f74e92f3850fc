pub mod action_names;
pub mod activity;
pub mod args;
pub mod bash;
pub mod bytes;
pub mod calendar;
pub mod child_env;
pub mod cmd;
pub mod codec;
pub mod dedup;
pub mod dispatch;
pub mod entrypoint;
pub mod filesystem;
pub mod fs;
pub mod health;
pub mod http;
pub mod json;
pub mod json_text;
pub mod laws;
pub mod messages;
pub mod numbers;
pub mod port;
pub mod process;
pub mod pyval;
pub mod startup;
pub mod stream;
pub mod stream_loop;
pub mod text;
pub mod tunnel;
pub mod value;
