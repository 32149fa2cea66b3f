//! The subcommands of Kimai Timer, one module each.

pub mod add;
pub mod punch_in;
pub mod list;
pub mod log;
pub mod new;
pub mod out;
pub mod switch;

pub use add::CommandAdd;
pub use punch_in::CommandIn;
pub use list::CommandList;
pub use log::CommandLog;
pub use new::CommandNew;
pub use out::CommandOut;
pub use switch::CommandSwitch;

