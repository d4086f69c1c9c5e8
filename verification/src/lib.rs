pub mod bridges;
pub mod cli;
pub mod control;
pub mod coordinator;
pub mod dashboard;
pub mod discovery;
pub mod dns;
pub mod full_anon;
pub mod instance_lock;
pub mod isolation;
pub mod killswitch;
pub mod laws;
pub mod monitor;
pub mod net;
pub mod nft;
pub mod paths;
pub mod policy;
pub mod redirect;
pub mod socks;
pub mod span;
pub mod status;
pub mod supervisor;
pub mod telemetry;
pub mod text;
