pub mod codec;
pub mod text;
pub mod terminal;
pub mod lookup;
pub mod cli_protocol;
pub mod cli_config;
pub mod cli_listing;
pub mod daemon_protocol;
pub mod device_store;
pub mod relay_protocol;
pub mod relay_tables;
pub mod relay;
pub mod daemon_logic;
pub mod cli_exec;
pub mod tray_status;
pub mod process_table;
pub mod process_logic;
