//! Audio calls: the rules, buffers and state machines behind them.

pub mod app;
pub mod audio;
pub mod call_table;
pub mod codec;
pub mod duplex;
pub mod frames;
pub mod net;
pub mod node_id;
pub mod payload;
pub mod ring;
pub mod rtc;
pub mod run;
pub mod text;
pub mod web_audio;
pub mod worker;
