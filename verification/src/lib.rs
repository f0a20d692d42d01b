//! Typed expression trees ("ErgoTree") used as spending conditions in a
//! UTXO blockchain, together with the unsigned transaction they operate on.
//!
//! The crate provides:
//! - a structural type system (`stype`) and a tagged value domain (`value`);
//! - a typed expression IR with smart constructors (`expr`);
//! - a canonical binary serializer and parser for expressions (`vlq`,
//!   `serializer`);
//! - a deterministic, cost-metered evaluator with checked arithmetic and
//!   lazy short-circuit semantics (`eval`);
//! - the unsigned transaction object, its canonical signing bytes and its
//!   identifier (`hash`, `transaction`, `tx_json`), and the hex rendering
//!   of identifiers (`hex`);
//! - lowering from the front end's surface syntax shapes (`hir`);
//! - peer address wire encoding (`peer_addr`).

pub mod stype;
pub mod value;
pub mod expr;
pub mod eval;
pub mod vlq;
pub mod serializer;
pub mod hash;
pub mod hex;
pub mod transaction;
pub mod tx_json;
pub mod hir;
pub mod peer_addr;
