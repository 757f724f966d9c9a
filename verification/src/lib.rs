//! Engine supervision for a desktop client whose engines each publish a local
//! SOCKS5 proxy: what each engine needs to start, the texts handed to the
//! engines, the exchange that asks the running chain which exit the internet
//! sees, and the decisions taken while a chain of engines is brought up.

pub mod text;
pub mod json;
pub mod region;
pub mod engine;
pub mod paths;
pub mod config;
pub mod exit;
pub mod supervisor;

pub use config::{
    args_for, env_for, global_config_text, join_with, loopback_text, tun_config, TUN_BYPASS,
};
pub use engine::{
    step_timeout, step_timeout_secs, Engine, Plan, Step, AETHER_PORT, GLOBAL_PORT, PROWL_PORT,
    TUN_API_PORT,
};
pub use exit::{
    body_complete, exit_reply, http_request, socks_connect_request, ExitAction, ExitCheck,
    ExitError, ExitStage, EXIT_CHECK_HOST, EXIT_CHECK_PATH, EXIT_CHECK_PORT,
};
pub use json::{json_field, json_string};
pub use paths::{
    binary_file_name, binary_path, config_file_in, global_store_dir, log_path, tun_binary,
    tunnel_dir_in, tunnel_log_path,
};
pub use region::{normalise_region, REGIONS};
pub use supervisor::{
    chain_is_running, port_wait_step, tunnel_args, PortWait, Proc, Stage, StartAction,
    StartError, StartErrorKind, Supervisor,
};
pub use text::port_text;
