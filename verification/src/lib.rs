pub mod accounts;
pub mod amount;
pub mod attestation;
pub mod availability;
pub mod backups;
pub mod ballots;
pub mod blocks;
pub mod bonds;
pub mod candidates;
pub mod catchup;
pub mod chain;
pub mod committee;
pub mod comparison;
pub mod consensus;
pub mod continuity;
pub mod crypto;
pub mod diagnostics;
pub mod drafts;
pub mod endpoint;
pub mod envelope;
pub mod epochs;
pub mod error;
pub mod execution;
pub mod explorer;
pub mod extension;
pub mod fees;
pub mod governance;
pub mod history;
pub mod ip;
pub mod json;
pub mod lifecycle;
pub mod members;
pub mod model;
pub mod network_operations;
pub mod networks;
pub mod node_drafts;
pub mod node_operations;
pub mod nodes;
pub mod number;
pub mod operations;
pub mod overlays;
pub mod parameter;
pub mod payload;
pub mod payments;
pub mod peers;
pub mod probes;
pub mod production;
pub mod proposals;
pub mod proposing;
pub mod protocol;
pub mod pruning;
pub mod queries;
pub mod ranking;
pub mod registration;
pub mod registry;
pub mod rewards;
pub mod search;
pub mod sequence;
pub mod sessions;
pub mod settings;
pub mod soundness;
pub mod steering;
pub mod storage;
pub mod supply;
pub mod table;
pub mod text;
pub mod traffic;
pub mod transfers;
pub mod treasury;
pub mod value;
pub mod vesting;
pub mod views;
pub mod voting;
