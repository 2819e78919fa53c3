//! Plain data carried between the codec and its callers: service
//! configuration, health reporting, and transaction attestation records.

use vstd::prelude::*;
use crate::emv_processor::CardData;

verus! {

/// Service configuration.
#[derive(Debug, Clone, PartialEq, Eq)]
pub struct Config {
    pub server: ServerConfig,
    pub signing_key: String,
    pub cache: CacheConfig,
    pub logging: LoggingConfig,
    pub backend: BackendConfig,
}

/// Where the attestation backend listens.
#[derive(Debug, Clone, PartialEq, Eq)]
pub struct BackendConfig {
    pub url: String,
}

/// Where this service listens.
#[derive(Debug, Clone, PartialEq, Eq)]
pub struct ServerConfig {
    pub host: String,
    pub port: u16,
}

/// Response cache settings.
#[derive(Debug, Clone, PartialEq, Eq)]
pub struct CacheConfig {
    pub enabled: bool,
    pub max_size_mb: usize,
}

/// Logging settings.
#[derive(Debug, Clone, PartialEq, Eq)]
pub struct LoggingConfig {
    pub level: String,
}

/// What a health check reports.
#[derive(Debug, Clone, PartialEq, Eq)]
pub struct HealthCheckResponse {
    pub status: String,
    pub service: String,
    pub version: String,
    pub capabilities: DeviceCapabilities,
}

/// The capabilities probed on the device running the terminal.
#[derive(Debug, Clone, Copy, PartialEq, Eq, Structural)]
pub struct DeviceCapabilities {
    /// NFC hardware present
    pub nfc_available: bool,
    /// Trusted execution environment present
    pub tee_available: bool,
    /// EMV processing ready
    pub emv_processing: bool,
    /// APDU processing ready
    pub apdu_processing: bool,
    /// Network reachable
    pub network_available: bool,
    /// GPS available
    pub gps_available: bool,
    /// Attestation backend reachable
    pub backend_connected: bool,
}

impl DeviceCapabilities {
    /// Healthy means both critical capabilities are ready: EMV processing
    /// and APDU processing.  Backend connectivity is reference information
    /// only, so the service can run offline.
    pub fn is_healthy(&self) -> (r: bool)
        ensures
            r == (self.emv_processing && self.apdu_processing),
    {
        self.emv_processing && self.apdu_processing
    }
}

/// What the SELECT handler answers.
#[derive(Debug, Clone, PartialEq, Eq)]
pub struct SelectResponse {
    pub success: bool,
    pub fci: String,
    pub sw: String,
}

/// What the READ RECORD handler answers.
#[derive(Debug, Clone, PartialEq, Eq)]
pub struct ReadResponse {
    pub success: bool,
    pub data: String,
    pub sw: String,
}

/// What the GET PROCESSING OPTIONS handler answers.
#[derive(Debug, Clone, PartialEq, Eq)]
pub struct GpoResponse {
    pub success: bool,
    pub aip: String,
    pub afl: String,
    pub sw: String,
}

/// A transaction as the device submits it.
#[derive(Debug, Clone, PartialEq, Eq)]
pub struct TransactionRequest {
    /// Device ID
    pub device_id: String,
    /// Transaction amount (cents)
    pub amount: i64,
    /// Currency code
    pub currency: String,
    /// Card data
    pub card_data: CardData,
    /// EMV transaction data
    pub emv_data: EmvTransactionData,
}

/// EMV data attached to a transaction.
#[derive(Debug, Clone, PartialEq, Eq)]
pub struct EmvTransactionData {
    /// Amount (in cents)
    pub amount: i64,
    /// Currency code (ISO 4217)
    pub currency_code: String,
    /// Transaction type
    pub transaction_type: TransactionType,
    /// Terminal Verification Results
    pub tvr: Option<String>,
    /// Transaction Status Information
    pub tsi: Option<String>,
    /// Application Cryptogram
    pub cryptogram: Option<String>,
    /// Cryptogram Information Data
    pub cid: Option<u8>,
}

/// The kind of transaction being performed.
#[derive(Debug, Clone, Copy, PartialEq, Eq, Structural)]
pub enum TransactionType {
    Purchase,
    Withdrawal,
    Refund,
    CashAdvance,
}

/// An attestation request as forwarded to the backend.
#[derive(Debug, Clone, PartialEq, Eq)]
pub struct AttestationRequest {
    /// Device ID
    pub device_id: String,
    /// Transaction amount
    pub amount: i64,
    /// Currency code
    pub currency_code: String,
    /// Transaction type
    pub transaction_type: String,
    /// Card PAN
    pub card_pan: String,
    /// Card expiry
    pub card_expiry: String,
    /// Track 2 data
    pub track2_data: Option<String>,
    /// EMV data
    pub emv_data: EmvDataForAttestation,
    /// Client IP
    pub client_ip: Option<String>,
}

/// The EMV fields the backend needs for attestation.
#[derive(Debug, Clone, PartialEq, Eq)]
pub struct EmvDataForAttestation {
    /// Application ID
    pub aid: String,
    /// Terminal Verification Results
    pub tvr: Option<String>,
    /// Transaction Status Information
    pub tsi: Option<String>,
    /// Application Cryptogram
    pub cryptogram: Option<String>,
    /// Cryptogram Information Data
    pub cid: Option<u8>,
}

/// What the backend answers to an attestation request.
#[derive(Debug, Clone, PartialEq, Eq)]
pub struct AttestationResponse {
    /// Transaction ID
    pub transaction_id: String,
    /// Status
    pub status: String,
    /// Authorization code
    pub auth_code: Option<String>,
    /// Response message
    pub message: Option<String>,
}

/// Where a transaction stands.
#[derive(Debug, Clone, Copy, PartialEq, Eq, Structural)]
pub enum TransactionStatus {
    Pending,
    Approved,
    Declined,
    Failed,
}

} // verus!
