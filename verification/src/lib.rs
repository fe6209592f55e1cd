pub mod buf;
pub mod buffer_pool;
pub mod protocol;
pub mod text;
pub mod session;
pub mod room;
pub mod task;
pub mod worker;
