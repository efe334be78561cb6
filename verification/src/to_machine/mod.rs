//! What the machine that serves requests decides without touching its store.

pub mod to_machine_option;
pub mod to_machine_pub_op;
