//! Accounting and pricing core of a bonding-curve token market: curve
//! pricing, the fee cascade, the dividend index ("reflection"), buybacks and
//! the one-way migration, plus the bookkeeping records around them.

pub mod address;
pub mod airdrop;
pub mod buyback;
pub mod config;
pub mod discount;
pub mod error;
pub mod fees;
pub mod merkle;
pub mod migration;
pub mod pricing;
pub mod purchase;
pub mod referral;
pub mod reflection;
pub mod security;
pub mod state;
