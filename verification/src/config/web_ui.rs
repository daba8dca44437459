//! The web interface settings, under the name the loader uses.
pub use crate::config::web_ui_config::{
    default_base_port, default_cols, default_enabled, default_host, default_rows, WebUIConfig,
};
