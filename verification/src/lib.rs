//! Reading AWS CloudWatch logs and Kinesis streams: date arguments, stream selection, paging,
//! output lines and the state of the terminal front-end.

use vstd::prelude::*;

pub mod calendar;
pub mod cli;
pub mod client;
pub mod engine;
pub mod exceptions;
pub mod kinesis;
pub mod logs;
pub mod pattern;
pub mod query;
pub mod text;
pub mod time;
pub mod tui;

pub use crate::exceptions::AwsLogsError;
pub use crate::kinesis::{KinesisSearch, KinesisSearchConfig};
pub use crate::logs::{AwsLogs, AwsLogsConfig, ColorPreference};
pub use crate::time::parse_datetime;

verus! {

/// The version of the library.
pub const VERSION: &'static str = "0.1.0";

} // verus!
