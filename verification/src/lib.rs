//! An EMV terminal-side codec: builds command APDUs, splits response APDUs,
//! parses BER-TLV payloads and extracts card attributes from them.

pub mod apdu;
pub mod crypto;
pub mod emv_processor;
pub mod hexstr;
pub mod models;
pub mod tlv;

pub use apdu::ApduCommand;
pub use apdu::ApduResponse;
pub use emv_processor::CardData;
pub use emv_processor::EmvProcessor;
pub use crypto::sha256;
pub use crypto::sign_data;
pub use crypto::verify_signature;
pub use hexstr::hex_encode;
pub use tlv::Tlv;
