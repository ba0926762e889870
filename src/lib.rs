//! Client side of NTS key establishment: the record codec, a streaming record
//! decoder and the negotiation state machine that folds records into a result.

pub mod record;
pub mod decoder;
pub mod cookies;
pub mod exchange;
pub mod arith;
pub mod session;

pub use decoder::NtsRecordDecoder;
pub use exchange::{KeyExchangeError, KeyExchangeResult};
pub use record::{NtsRecord, WriteError};
pub use session::KeyExchangeClient;
