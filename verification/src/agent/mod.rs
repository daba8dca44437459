pub mod ht_process;
pub mod pty_process;
pub mod pty_session;
pub mod pty_terminal;
pub mod status;
pub mod terminal_monitor;
