//! Host information: distribution identity, login and host names, kernel
//! release, shell, uptime and memory usage, parsed from the text and raw
//! buffers that the operating system exposes.
pub mod identity;
pub mod info;
pub mod parse;
pub mod text;
pub mod units;
pub mod uptime;

pub use text::{chars_of, decimal_text, parse_decimal, parse_unsigned};
pub use parse::{parse_minf_key, parse_osr_key};
pub use units::{kb_to_gb, minf_get_gb, minf_get_kb, used_mem};
pub use uptime::{get_uptime, parse_uptime_seconds, uptime_from_seconds, Uptime};
pub use identity::{decode_identity, Type};
pub use info::{assemble_system_info, shell_name, SystemInfo};
