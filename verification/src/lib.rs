//! A minimal on-chain crowdfunding ledger: an administrator creates a
//! campaign record inside a program-owned account, supporters donate funds
//! to it, and the administrator withdraws accumulated funds.
//!
//! The crate is organised after the data flow of one invocation:
//! [`codec`] reads and writes the persisted campaign record, [`validate`]
//! classifies the caller-supplied accounts, [`lifecycle`] applies the
//! create / donate / withdraw state transitions, and [`dispatch`]
//! demultiplexes an opcode-tagged instruction buffer to the right
//! transition. The host's account and permission model is mirrored by the
//! plain values in [`account`].

pub mod account;
pub mod codec;
pub mod dispatch;
pub mod error;
pub mod lifecycle;
pub mod validate;
