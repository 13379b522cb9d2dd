//! Decision core of an Ark-backed Cashu payment processor.

pub mod adapters;
pub mod ark_backend;
pub mod ark_store;
pub mod board_pass;
pub mod board_walk;
pub mod boarding;
pub mod credits;
pub mod intents;
pub mod lightning_sends;
pub mod mint_inputs;
pub mod network;
pub mod onchain_payment;
pub mod onchain_sends;
pub mod order;
pub mod outputs;
pub mod payjoin_receiver;
pub mod payjoin_state;
pub mod payment;
pub mod payment_stream;
pub mod pj_uri;
pub mod por;
pub mod receives;
pub mod requests;
pub mod seqs;
pub mod session_log;
pub mod settings;
pub mod split;
pub mod startup;
pub mod table;
pub mod telemetry;
pub mod text;
