pub mod change;
pub mod cycle;
pub mod identify;
pub mod util;
pub mod winsys;
pub mod stack;
pub mod decoration;
pub mod placement;
pub mod compare;
pub mod error;
pub mod rule;
pub mod partition;
pub mod client;
pub mod workspace;
pub mod layout;
pub mod consume;
pub mod manipulate;
pub mod dispatch;
pub mod zone;
pub mod arrange;
pub mod registry;
