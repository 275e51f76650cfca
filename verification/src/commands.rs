pub mod down;
pub mod exec;
pub mod port;
pub mod stop;
pub mod up;
pub mod update;
pub mod watch;
