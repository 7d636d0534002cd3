//! k8pk: Kubernetes context picker -- the verified core.

pub mod text;
pub mod error;
pub mod yaml;
pub mod strmap;
pub mod kubeconfig;
pub mod kubeconfig_ops;
pub mod login;
pub mod rancher;
pub mod sessions;
pub mod config;
pub mod tmux;
pub mod guide;
pub mod context;
pub mod state;
pub mod alias;
pub mod http;
pub mod shell;
pub mod doctor;
pub mod laws;
pub mod organize;
pub mod update;
pub mod login_config;
pub mod relogin;
pub mod relogin_flow;
pub mod config_edit;
pub mod discovery;
pub mod summaries;
pub mod session_check;
pub mod wizard;
pub mod resolve;
pub mod picker;
