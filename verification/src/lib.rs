//! A streaming line editor: address conditions, the commands they guard, and
//! the per-line pipeline that applies them.

pub mod address;
pub mod address_condition;
pub mod address_traits;
pub mod command;
pub mod config;
pub mod laws;
pub mod line;
pub mod line_number;
pub mod line_range;
pub mod parse;
pub mod pipeline;
pub mod segments;
pub mod text;

pub use address::Address;
pub use address_condition::{AddressCondition, AddressConditionParseError, Values};
pub use address_traits::{OneAddressCondition, TwoAddressCondition};
pub use command::{Command, CommandParseError, CommandType};
pub use config::Config;
pub use line::Line;
pub use line_number::LineNumber;
pub use line_range::{LineRange, RangeBounds};
pub use parse::{parse_arg, ArgParseError, ClosureType, ParsedAddrCond};
pub use pipeline::{Output, Pipeline};
