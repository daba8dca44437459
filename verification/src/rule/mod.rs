pub mod capture;
pub mod when;
pub mod diff_timeout;
