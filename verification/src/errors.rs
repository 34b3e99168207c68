//! The protocol's error codes, each with its stable numeric code and its
//! short symbol.

use vstd::prelude::*;

use crate::symbol::{symbol_body, Symbol};

verus! {

/// Typed error enum of the protocol. Every variant has a numeric code that is
/// part of the public interface and must never be renumbered, and a short
/// symbol under which it is reported.
#[derive(Clone, Copy, Debug, PartialEq, Eq, Structural, PartialOrd, Ord, Hash)]
pub enum QuickLendXError {
    // Invoice lifecycle (1000-1006)
    /// Code 1000.
    InvoiceNotFound,
    /// Code 1001.
    InvoiceNotAvailableForFunding,
    /// Code 1002.
    InvoiceAlreadyFunded,
    /// Code 1003.
    InvoiceAmountInvalid,
    /// Code 1004.
    InvoiceDueDateInvalid,
    /// Code 1005.
    InvoiceNotFunded,
    /// Code 1006.
    InvoiceAlreadyDefaulted,
    /// Code 1007.
    InvoiceFrozen,
    // Authorization (1100-1104)
    /// Code 1100.
    Unauthorized,
    /// Code 1101.
    NotBusinessOwner,
    /// Code 1102.
    NotInvestor,
    /// Code 1103.
    NotAdmin,
    /// Caller address equals the contract's own address (confused-deputy prevention).
    /// Code 1104.
    SelfCallNotAllowed,
    // Input validation (1200-1205)
    /// Code 1200.
    InvalidAmount,
    /// Code 1201.
    InvalidAddress,
    /// Code 1202.
    InvalidCurrency,
    /// Code 1203.
    InvalidTimestamp,
    /// Code 1204.
    InvalidDescription,
    /// Code 1205.
    SelfTransfer,
    // Storage (1300-1301)
    /// Code 1300.
    StorageError,
    /// Code 1301.
    StorageKeyNotFound,
    // Business logic (1400-1405)
    /// Code 1400.
    InsufficientFunds,
    /// Code 1401.
    InvalidStatus,
    /// Code 1402.
    OperationNotAllowed,
    /// Code 1403.
    PaymentTooLow,
    /// Code 1404.
    PlatformAccountNotConfigured,
    /// Code 1405.
    InvalidCoveragePercentage,
    /// Code 1406.
    MaxBidsPerInvoiceExceeded,
    /// Code 1407.
    MaxActiveBidsPerInvestorExceeded,
    /// Code 1408.
    MaxInvoicesPerBusinessExceeded,
    /// Code 1409.
    InvalidBidTtl,
    // Rating (1500-1503)
    /// Code 1500.
    InvalidRating,
    /// Code 1501.
    NotFunded,
    /// Code 1502.
    AlreadyRated,
    /// Code 1503.
    NotRater,
    /// Admin rating override was requested without a non-empty, bounded-length audit reason.
    /// Code 1504.
    InvalidRatingOverrideReason,
    // KYC / verification (1600-1604)
    /// Code 1600.
    BusinessNotVerified,
    /// Code 1601.
    KYCAlreadyPending,
    /// Code 1602.
    KYCAlreadyVerified,
    /// Code 1603.
    KYCNotFound,
    /// Code 1604.
    InvalidKYCStatus,
    /// Code 1605.
    InvestorNotVerified,
    /// Code 1660.
    BusinessDeleted,
    // Audit (1700-1702)
    /// Code 1700.
    AuditLogNotFound,
    /// Code 1701.
    AuditIntegrityError,
    /// Code 1702.
    AuditQueryError,
    // Category / tag (1800-1801)
    /// Code 1800.
    InvalidTag,
    /// Code 1801.
    TagLimitExceeded,
    // Fee configuration (1850-1855)
    /// Code 1850.
    InvalidFeeConfiguration,
    /// Code 1851.
    TreasuryNotConfigured,
    /// Code 1852.
    InvalidFeeBasisPoints,
    /// Code 1853.
    RotationAlreadyPending,
    /// Code 1854.
    RotationNotFound,
    /// Code 1855.
    RotationExpired,
    /// Code 1856.
    ArithmeticOverflow,
    /// Code 1857.
    RotationTimelockNotElapsed,
    /// A treasury rotation was cancelled but no rotation was pending.
    /// Code 1858.
    NoPendingTreasuryRotation,
    // Dispute (1900-1906)
    /// Code 1900.
    DisputeNotFound,
    /// Code 1901.
    DisputeAlreadyExists,
    /// Code 1902.
    DisputeNotAuthorized,
    /// Code 1903.
    DisputeAlreadyResolved,
    /// Code 1904.
    DisputeNotUnderReview,
    /// Code 1905.
    InvalidDisputeReason,
    /// Code 1906.
    InvalidDisputeEvidence,
    // Notification (2000-2002)
    /// Code 2000.
    NotificationNotFound,
    /// Code 2001.
    NotificationBlocked,
    /// Code 2002.
    NotificationDuplicate,
    // Emergency withdraw (2100-2106)
    /// Code 2100.
    ContractPaused,
    /// Code 2101.
    EmergencyWithdrawNotFound,
    /// Code 2102.
    EmergencyWithdrawTimelockNotElapsed,
    /// Code 2103.
    EmergencyWithdrawExpired,
    /// Code 2104.
    EmergencyWithdrawCancelled,
    /// Code 2105.
    EmergencyWithdrawAlreadyExists,
    /// Code 2106.
    EmergencyWithdrawInsufficientBalance,
    /// Code 2200.
    TokenTransferFailed,
    /// Code 2201.
    MaintenanceModeActive,
    /// Code 2202.
    DuplicateDefaultTransition,
    /// Code 2203.
    BackupVersionUnsupported,
    /// Code 2204.
    DuplicateBid,
    /// Caller supplied a cursor from a different snapshot generation.
    /// Code 2205.
    InvalidLedgerSequence,
    /// Pagination cursor originates from a different snapshot generation.
    /// Code 2206.
    UnstableCursor,
}

impl QuickLendXError {
    /// The stable numeric code of an error.
    pub open spec fn spec_code(self) -> u32 {
        match self {
            QuickLendXError::InvoiceNotFound => 1000,
            QuickLendXError::InvoiceNotAvailableForFunding => 1001,
            QuickLendXError::InvoiceAlreadyFunded => 1002,
            QuickLendXError::InvoiceAmountInvalid => 1003,
            QuickLendXError::InvoiceDueDateInvalid => 1004,
            QuickLendXError::InvoiceNotFunded => 1005,
            QuickLendXError::InvoiceAlreadyDefaulted => 1006,
            QuickLendXError::InvoiceFrozen => 1007,
            QuickLendXError::Unauthorized => 1100,
            QuickLendXError::NotBusinessOwner => 1101,
            QuickLendXError::NotInvestor => 1102,
            QuickLendXError::NotAdmin => 1103,
            QuickLendXError::SelfCallNotAllowed => 1104,
            QuickLendXError::InvalidAmount => 1200,
            QuickLendXError::InvalidAddress => 1201,
            QuickLendXError::InvalidCurrency => 1202,
            QuickLendXError::InvalidTimestamp => 1203,
            QuickLendXError::InvalidDescription => 1204,
            QuickLendXError::SelfTransfer => 1205,
            QuickLendXError::StorageError => 1300,
            QuickLendXError::StorageKeyNotFound => 1301,
            QuickLendXError::InsufficientFunds => 1400,
            QuickLendXError::InvalidStatus => 1401,
            QuickLendXError::OperationNotAllowed => 1402,
            QuickLendXError::PaymentTooLow => 1403,
            QuickLendXError::PlatformAccountNotConfigured => 1404,
            QuickLendXError::InvalidCoveragePercentage => 1405,
            QuickLendXError::MaxBidsPerInvoiceExceeded => 1406,
            QuickLendXError::MaxActiveBidsPerInvestorExceeded => 1407,
            QuickLendXError::MaxInvoicesPerBusinessExceeded => 1408,
            QuickLendXError::InvalidBidTtl => 1409,
            QuickLendXError::InvalidRating => 1500,
            QuickLendXError::NotFunded => 1501,
            QuickLendXError::AlreadyRated => 1502,
            QuickLendXError::NotRater => 1503,
            QuickLendXError::InvalidRatingOverrideReason => 1504,
            QuickLendXError::BusinessNotVerified => 1600,
            QuickLendXError::KYCAlreadyPending => 1601,
            QuickLendXError::KYCAlreadyVerified => 1602,
            QuickLendXError::KYCNotFound => 1603,
            QuickLendXError::InvalidKYCStatus => 1604,
            QuickLendXError::InvestorNotVerified => 1605,
            QuickLendXError::BusinessDeleted => 1660,
            QuickLendXError::AuditLogNotFound => 1700,
            QuickLendXError::AuditIntegrityError => 1701,
            QuickLendXError::AuditQueryError => 1702,
            QuickLendXError::InvalidTag => 1800,
            QuickLendXError::TagLimitExceeded => 1801,
            QuickLendXError::InvalidFeeConfiguration => 1850,
            QuickLendXError::TreasuryNotConfigured => 1851,
            QuickLendXError::InvalidFeeBasisPoints => 1852,
            QuickLendXError::RotationAlreadyPending => 1853,
            QuickLendXError::RotationNotFound => 1854,
            QuickLendXError::RotationExpired => 1855,
            QuickLendXError::ArithmeticOverflow => 1856,
            QuickLendXError::RotationTimelockNotElapsed => 1857,
            QuickLendXError::NoPendingTreasuryRotation => 1858,
            QuickLendXError::DisputeNotFound => 1900,
            QuickLendXError::DisputeAlreadyExists => 1901,
            QuickLendXError::DisputeNotAuthorized => 1902,
            QuickLendXError::DisputeAlreadyResolved => 1903,
            QuickLendXError::DisputeNotUnderReview => 1904,
            QuickLendXError::InvalidDisputeReason => 1905,
            QuickLendXError::InvalidDisputeEvidence => 1906,
            QuickLendXError::NotificationNotFound => 2000,
            QuickLendXError::NotificationBlocked => 2001,
            QuickLendXError::NotificationDuplicate => 2002,
            QuickLendXError::ContractPaused => 2100,
            QuickLendXError::EmergencyWithdrawNotFound => 2101,
            QuickLendXError::EmergencyWithdrawTimelockNotElapsed => 2102,
            QuickLendXError::EmergencyWithdrawExpired => 2103,
            QuickLendXError::EmergencyWithdrawCancelled => 2104,
            QuickLendXError::EmergencyWithdrawAlreadyExists => 2105,
            QuickLendXError::EmergencyWithdrawInsufficientBalance => 2106,
            QuickLendXError::TokenTransferFailed => 2200,
            QuickLendXError::MaintenanceModeActive => 2201,
            QuickLendXError::DuplicateDefaultTransition => 2202,
            QuickLendXError::BackupVersionUnsupported => 2203,
            QuickLendXError::DuplicateBid => 2204,
            QuickLendXError::InvalidLedgerSequence => 2205,
            QuickLendXError::UnstableCursor => 2206,
        }
    }

    /// The stable numeric code of this error.
    pub fn code(self) -> (r: u32)
        ensures
            r == self.spec_code(),
    {
        match self {
            QuickLendXError::InvoiceNotFound => 1000,
            QuickLendXError::InvoiceNotAvailableForFunding => 1001,
            QuickLendXError::InvoiceAlreadyFunded => 1002,
            QuickLendXError::InvoiceAmountInvalid => 1003,
            QuickLendXError::InvoiceDueDateInvalid => 1004,
            QuickLendXError::InvoiceNotFunded => 1005,
            QuickLendXError::InvoiceAlreadyDefaulted => 1006,
            QuickLendXError::InvoiceFrozen => 1007,
            QuickLendXError::Unauthorized => 1100,
            QuickLendXError::NotBusinessOwner => 1101,
            QuickLendXError::NotInvestor => 1102,
            QuickLendXError::NotAdmin => 1103,
            QuickLendXError::SelfCallNotAllowed => 1104,
            QuickLendXError::InvalidAmount => 1200,
            QuickLendXError::InvalidAddress => 1201,
            QuickLendXError::InvalidCurrency => 1202,
            QuickLendXError::InvalidTimestamp => 1203,
            QuickLendXError::InvalidDescription => 1204,
            QuickLendXError::SelfTransfer => 1205,
            QuickLendXError::StorageError => 1300,
            QuickLendXError::StorageKeyNotFound => 1301,
            QuickLendXError::InsufficientFunds => 1400,
            QuickLendXError::InvalidStatus => 1401,
            QuickLendXError::OperationNotAllowed => 1402,
            QuickLendXError::PaymentTooLow => 1403,
            QuickLendXError::PlatformAccountNotConfigured => 1404,
            QuickLendXError::InvalidCoveragePercentage => 1405,
            QuickLendXError::MaxBidsPerInvoiceExceeded => 1406,
            QuickLendXError::MaxActiveBidsPerInvestorExceeded => 1407,
            QuickLendXError::MaxInvoicesPerBusinessExceeded => 1408,
            QuickLendXError::InvalidBidTtl => 1409,
            QuickLendXError::InvalidRating => 1500,
            QuickLendXError::NotFunded => 1501,
            QuickLendXError::AlreadyRated => 1502,
            QuickLendXError::NotRater => 1503,
            QuickLendXError::InvalidRatingOverrideReason => 1504,
            QuickLendXError::BusinessNotVerified => 1600,
            QuickLendXError::KYCAlreadyPending => 1601,
            QuickLendXError::KYCAlreadyVerified => 1602,
            QuickLendXError::KYCNotFound => 1603,
            QuickLendXError::InvalidKYCStatus => 1604,
            QuickLendXError::InvestorNotVerified => 1605,
            QuickLendXError::BusinessDeleted => 1660,
            QuickLendXError::AuditLogNotFound => 1700,
            QuickLendXError::AuditIntegrityError => 1701,
            QuickLendXError::AuditQueryError => 1702,
            QuickLendXError::InvalidTag => 1800,
            QuickLendXError::TagLimitExceeded => 1801,
            QuickLendXError::InvalidFeeConfiguration => 1850,
            QuickLendXError::TreasuryNotConfigured => 1851,
            QuickLendXError::InvalidFeeBasisPoints => 1852,
            QuickLendXError::RotationAlreadyPending => 1853,
            QuickLendXError::RotationNotFound => 1854,
            QuickLendXError::RotationExpired => 1855,
            QuickLendXError::ArithmeticOverflow => 1856,
            QuickLendXError::RotationTimelockNotElapsed => 1857,
            QuickLendXError::NoPendingTreasuryRotation => 1858,
            QuickLendXError::DisputeNotFound => 1900,
            QuickLendXError::DisputeAlreadyExists => 1901,
            QuickLendXError::DisputeNotAuthorized => 1902,
            QuickLendXError::DisputeAlreadyResolved => 1903,
            QuickLendXError::DisputeNotUnderReview => 1904,
            QuickLendXError::InvalidDisputeReason => 1905,
            QuickLendXError::InvalidDisputeEvidence => 1906,
            QuickLendXError::NotificationNotFound => 2000,
            QuickLendXError::NotificationBlocked => 2001,
            QuickLendXError::NotificationDuplicate => 2002,
            QuickLendXError::ContractPaused => 2100,
            QuickLendXError::EmergencyWithdrawNotFound => 2101,
            QuickLendXError::EmergencyWithdrawTimelockNotElapsed => 2102,
            QuickLendXError::EmergencyWithdrawExpired => 2103,
            QuickLendXError::EmergencyWithdrawCancelled => 2104,
            QuickLendXError::EmergencyWithdrawAlreadyExists => 2105,
            QuickLendXError::EmergencyWithdrawInsufficientBalance => 2106,
            QuickLendXError::TokenTransferFailed => 2200,
            QuickLendXError::MaintenanceModeActive => 2201,
            QuickLendXError::DuplicateDefaultTransition => 2202,
            QuickLendXError::BackupVersionUnsupported => 2203,
            QuickLendXError::DuplicateBid => 2204,
            QuickLendXError::InvalidLedgerSequence => 2205,
            QuickLendXError::UnstableCursor => 2206,
        }
    }

    /// The name of the short symbol under which an error is reported.
    pub open spec fn symbol_name(self) -> Seq<char> {
        match self {
            QuickLendXError::InvoiceNotFound => "INV_NF"@,
            QuickLendXError::InvoiceNotAvailableForFunding => "INV_NAF"@,
            QuickLendXError::InvoiceAlreadyFunded => "INV_AF"@,
            QuickLendXError::InvoiceAmountInvalid => "INV_AI"@,
            QuickLendXError::InvoiceDueDateInvalid => "INV_DI"@,
            QuickLendXError::InvoiceNotFunded => "INV_NFD"@,
            QuickLendXError::InvoiceAlreadyDefaulted => "INV_AD"@,
            QuickLendXError::InvoiceFrozen => "INV_FRZ"@,
            QuickLendXError::Unauthorized => "UNAUTH"@,
            QuickLendXError::NotBusinessOwner => "NOT_OWN"@,
            QuickLendXError::NotInvestor => "NOT_INV"@,
            QuickLendXError::NotAdmin => "NOT_ADM"@,
            QuickLendXError::SelfCallNotAllowed => "SELF_NA"@,
            QuickLendXError::InvalidAmount => "INV_AMT"@,
            QuickLendXError::InvalidAddress => "INV_ADR"@,
            QuickLendXError::InvalidCurrency => "INV_CR"@,
            QuickLendXError::InvalidTimestamp => "INV_TM"@,
            QuickLendXError::InvalidDescription => "INV_DS"@,
            QuickLendXError::SelfTransfer => "SLF_XFR"@,
            QuickLendXError::StorageError => "STORE"@,
            QuickLendXError::StorageKeyNotFound => "KEY_NF"@,
            QuickLendXError::InsufficientFunds => "INSUF"@,
            QuickLendXError::InvalidStatus => "INV_ST"@,
            QuickLendXError::OperationNotAllowed => "OP_NA"@,
            QuickLendXError::PaymentTooLow => "PAY_LOW"@,
            QuickLendXError::PlatformAccountNotConfigured => "PLT_NC"@,
            QuickLendXError::InvalidCoveragePercentage => "INS_CV"@,
            QuickLendXError::MaxBidsPerInvoiceExceeded => "MAX_BIDS"@,
            QuickLendXError::MaxActiveBidsPerInvestorExceeded => "MAX_ACT"@,
            QuickLendXError::MaxInvoicesPerBusinessExceeded => "MAX_INV"@,
            QuickLendXError::InvalidBidTtl => "INV_TTL"@,
            QuickLendXError::InvalidRating => "INV_RT"@,
            QuickLendXError::NotFunded => "NOT_FD"@,
            QuickLendXError::AlreadyRated => "ALR_RT"@,
            QuickLendXError::NotRater => "NOT_RT"@,
            QuickLendXError::InvalidRatingOverrideReason => "RT_OV_RSN"@,
            QuickLendXError::BusinessNotVerified => "BUS_NV"@,
            QuickLendXError::KYCAlreadyPending => "KYC_PD"@,
            QuickLendXError::KYCAlreadyVerified => "KYC_VF"@,
            QuickLendXError::KYCNotFound => "KYC_NF"@,
            QuickLendXError::InvalidKYCStatus => "KYC_IS"@,
            QuickLendXError::InvestorNotVerified => "INV_NV"@,
            QuickLendXError::BusinessDeleted => "BUS_DEL"@,
            QuickLendXError::AuditLogNotFound => "AUD_NF"@,
            QuickLendXError::AuditIntegrityError => "AUD_IE"@,
            QuickLendXError::AuditQueryError => "AUD_QE"@,
            QuickLendXError::InvalidTag => "INV_TAG"@,
            QuickLendXError::TagLimitExceeded => "TAG_LIM"@,
            QuickLendXError::InvalidFeeConfiguration => "FEE_CFG"@,
            QuickLendXError::TreasuryNotConfigured => "TRS_NC"@,
            QuickLendXError::InvalidFeeBasisPoints => "FEE_BPS"@,
            QuickLendXError::RotationAlreadyPending => "ROT_PND"@,
            QuickLendXError::RotationNotFound => "ROT_NF"@,
            QuickLendXError::RotationExpired => "ROT_EXP"@,
            QuickLendXError::ArithmeticOverflow => "ARITH_OF"@,
            QuickLendXError::RotationTimelockNotElapsed => "ROT_TLK"@,
            QuickLendXError::NoPendingTreasuryRotation => "ROT_NOPND"@,
            QuickLendXError::DisputeNotFound => "DSP_NF"@,
            QuickLendXError::DisputeAlreadyExists => "DSP_EX"@,
            QuickLendXError::DisputeNotAuthorized => "DSP_NA"@,
            QuickLendXError::DisputeAlreadyResolved => "DSP_RS"@,
            QuickLendXError::DisputeNotUnderReview => "DSP_UR"@,
            QuickLendXError::InvalidDisputeReason => "DSP_RN"@,
            QuickLendXError::InvalidDisputeEvidence => "DSP_EV"@,
            QuickLendXError::NotificationNotFound => "NOT_NF"@,
            QuickLendXError::NotificationBlocked => "NOT_BL"@,
            QuickLendXError::NotificationDuplicate => "NOT_DUP"@,
            QuickLendXError::ContractPaused => "PAUSED"@,
            QuickLendXError::EmergencyWithdrawNotFound => "EMG_NF"@,
            QuickLendXError::EmergencyWithdrawTimelockNotElapsed => "EMG_TLK"@,
            QuickLendXError::EmergencyWithdrawExpired => "EMG_EXP"@,
            QuickLendXError::EmergencyWithdrawCancelled => "EMG_CNL"@,
            QuickLendXError::EmergencyWithdrawAlreadyExists => "EMG_EX"@,
            QuickLendXError::EmergencyWithdrawInsufficientBalance => "EMG_BAL"@,
            QuickLendXError::TokenTransferFailed => "TKN_FAIL"@,
            QuickLendXError::MaintenanceModeActive => "MAINT"@,
            QuickLendXError::DuplicateDefaultTransition => "DEF_DUP"@,
            QuickLendXError::BackupVersionUnsupported => "BKP_VER"@,
            QuickLendXError::DuplicateBid => "DUP_BID"@,
            QuickLendXError::InvalidLedgerSequence => "INV_SEQ"@,
            QuickLendXError::UnstableCursor => "UNSTB_CUR"@,
        }
    }

    /// The short symbol under which this error is reported.
    pub fn symbol(self) -> (r: Symbol)
        ensures
            r == Symbol::spec_short(self.symbol_name()),
    {
        match self {
            QuickLendXError::InvoiceNotFound => {
                proof {
                    reveal_strlit("INV_NF");
                }
                Symbol::short("INV_NF")
            },
            QuickLendXError::InvoiceNotAvailableForFunding => {
                proof {
                    reveal_strlit("INV_NAF");
                }
                Symbol::short("INV_NAF")
            },
            QuickLendXError::InvoiceAlreadyFunded => {
                proof {
                    reveal_strlit("INV_AF");
                }
                Symbol::short("INV_AF")
            },
            QuickLendXError::InvoiceAmountInvalid => {
                proof {
                    reveal_strlit("INV_AI");
                }
                Symbol::short("INV_AI")
            },
            QuickLendXError::InvoiceDueDateInvalid => {
                proof {
                    reveal_strlit("INV_DI");
                }
                Symbol::short("INV_DI")
            },
            QuickLendXError::InvoiceNotFunded => {
                proof {
                    reveal_strlit("INV_NFD");
                }
                Symbol::short("INV_NFD")
            },
            QuickLendXError::InvoiceAlreadyDefaulted => {
                proof {
                    reveal_strlit("INV_AD");
                }
                Symbol::short("INV_AD")
            },
            QuickLendXError::InvoiceFrozen => {
                proof {
                    reveal_strlit("INV_FRZ");
                }
                Symbol::short("INV_FRZ")
            },
            QuickLendXError::Unauthorized => {
                proof {
                    reveal_strlit("UNAUTH");
                }
                Symbol::short("UNAUTH")
            },
            QuickLendXError::NotBusinessOwner => {
                proof {
                    reveal_strlit("NOT_OWN");
                }
                Symbol::short("NOT_OWN")
            },
            QuickLendXError::NotInvestor => {
                proof {
                    reveal_strlit("NOT_INV");
                }
                Symbol::short("NOT_INV")
            },
            QuickLendXError::NotAdmin => {
                proof {
                    reveal_strlit("NOT_ADM");
                }
                Symbol::short("NOT_ADM")
            },
            QuickLendXError::SelfCallNotAllowed => {
                proof {
                    reveal_strlit("SELF_NA");
                }
                Symbol::short("SELF_NA")
            },
            QuickLendXError::InvalidAmount => {
                proof {
                    reveal_strlit("INV_AMT");
                }
                Symbol::short("INV_AMT")
            },
            QuickLendXError::InvalidAddress => {
                proof {
                    reveal_strlit("INV_ADR");
                }
                Symbol::short("INV_ADR")
            },
            QuickLendXError::InvalidCurrency => {
                proof {
                    reveal_strlit("INV_CR");
                }
                Symbol::short("INV_CR")
            },
            QuickLendXError::InvalidTimestamp => {
                proof {
                    reveal_strlit("INV_TM");
                }
                Symbol::short("INV_TM")
            },
            QuickLendXError::InvalidDescription => {
                proof {
                    reveal_strlit("INV_DS");
                }
                Symbol::short("INV_DS")
            },
            QuickLendXError::SelfTransfer => {
                proof {
                    reveal_strlit("SLF_XFR");
                }
                Symbol::short("SLF_XFR")
            },
            QuickLendXError::StorageError => {
                proof {
                    reveal_strlit("STORE");
                }
                Symbol::short("STORE")
            },
            QuickLendXError::StorageKeyNotFound => {
                proof {
                    reveal_strlit("KEY_NF");
                }
                Symbol::short("KEY_NF")
            },
            QuickLendXError::InsufficientFunds => {
                proof {
                    reveal_strlit("INSUF");
                }
                Symbol::short("INSUF")
            },
            QuickLendXError::InvalidStatus => {
                proof {
                    reveal_strlit("INV_ST");
                }
                Symbol::short("INV_ST")
            },
            QuickLendXError::OperationNotAllowed => {
                proof {
                    reveal_strlit("OP_NA");
                }
                Symbol::short("OP_NA")
            },
            QuickLendXError::PaymentTooLow => {
                proof {
                    reveal_strlit("PAY_LOW");
                }
                Symbol::short("PAY_LOW")
            },
            QuickLendXError::PlatformAccountNotConfigured => {
                proof {
                    reveal_strlit("PLT_NC");
                }
                Symbol::short("PLT_NC")
            },
            QuickLendXError::InvalidCoveragePercentage => {
                proof {
                    reveal_strlit("INS_CV");
                }
                Symbol::short("INS_CV")
            },
            QuickLendXError::MaxBidsPerInvoiceExceeded => {
                proof {
                    reveal_strlit("MAX_BIDS");
                }
                Symbol::short("MAX_BIDS")
            },
            QuickLendXError::MaxActiveBidsPerInvestorExceeded => {
                proof {
                    reveal_strlit("MAX_ACT");
                }
                Symbol::short("MAX_ACT")
            },
            QuickLendXError::MaxInvoicesPerBusinessExceeded => {
                proof {
                    reveal_strlit("MAX_INV");
                }
                Symbol::short("MAX_INV")
            },
            QuickLendXError::InvalidBidTtl => {
                proof {
                    reveal_strlit("INV_TTL");
                }
                Symbol::short("INV_TTL")
            },
            QuickLendXError::InvalidRating => {
                proof {
                    reveal_strlit("INV_RT");
                }
                Symbol::short("INV_RT")
            },
            QuickLendXError::NotFunded => {
                proof {
                    reveal_strlit("NOT_FD");
                }
                Symbol::short("NOT_FD")
            },
            QuickLendXError::AlreadyRated => {
                proof {
                    reveal_strlit("ALR_RT");
                }
                Symbol::short("ALR_RT")
            },
            QuickLendXError::NotRater => {
                proof {
                    reveal_strlit("NOT_RT");
                }
                Symbol::short("NOT_RT")
            },
            QuickLendXError::InvalidRatingOverrideReason => {
                proof {
                    reveal_strlit("RT_OV_RSN");
                }
                Symbol::short("RT_OV_RSN")
            },
            QuickLendXError::BusinessNotVerified => {
                proof {
                    reveal_strlit("BUS_NV");
                }
                Symbol::short("BUS_NV")
            },
            QuickLendXError::KYCAlreadyPending => {
                proof {
                    reveal_strlit("KYC_PD");
                }
                Symbol::short("KYC_PD")
            },
            QuickLendXError::KYCAlreadyVerified => {
                proof {
                    reveal_strlit("KYC_VF");
                }
                Symbol::short("KYC_VF")
            },
            QuickLendXError::KYCNotFound => {
                proof {
                    reveal_strlit("KYC_NF");
                }
                Symbol::short("KYC_NF")
            },
            QuickLendXError::InvalidKYCStatus => {
                proof {
                    reveal_strlit("KYC_IS");
                }
                Symbol::short("KYC_IS")
            },
            QuickLendXError::InvestorNotVerified => {
                proof {
                    reveal_strlit("INV_NV");
                }
                Symbol::short("INV_NV")
            },
            QuickLendXError::BusinessDeleted => {
                proof {
                    reveal_strlit("BUS_DEL");
                }
                Symbol::short("BUS_DEL")
            },
            QuickLendXError::AuditLogNotFound => {
                proof {
                    reveal_strlit("AUD_NF");
                }
                Symbol::short("AUD_NF")
            },
            QuickLendXError::AuditIntegrityError => {
                proof {
                    reveal_strlit("AUD_IE");
                }
                Symbol::short("AUD_IE")
            },
            QuickLendXError::AuditQueryError => {
                proof {
                    reveal_strlit("AUD_QE");
                }
                Symbol::short("AUD_QE")
            },
            QuickLendXError::InvalidTag => {
                proof {
                    reveal_strlit("INV_TAG");
                }
                Symbol::short("INV_TAG")
            },
            QuickLendXError::TagLimitExceeded => {
                proof {
                    reveal_strlit("TAG_LIM");
                }
                Symbol::short("TAG_LIM")
            },
            QuickLendXError::InvalidFeeConfiguration => {
                proof {
                    reveal_strlit("FEE_CFG");
                }
                Symbol::short("FEE_CFG")
            },
            QuickLendXError::TreasuryNotConfigured => {
                proof {
                    reveal_strlit("TRS_NC");
                }
                Symbol::short("TRS_NC")
            },
            QuickLendXError::InvalidFeeBasisPoints => {
                proof {
                    reveal_strlit("FEE_BPS");
                }
                Symbol::short("FEE_BPS")
            },
            QuickLendXError::RotationAlreadyPending => {
                proof {
                    reveal_strlit("ROT_PND");
                }
                Symbol::short("ROT_PND")
            },
            QuickLendXError::RotationNotFound => {
                proof {
                    reveal_strlit("ROT_NF");
                }
                Symbol::short("ROT_NF")
            },
            QuickLendXError::RotationExpired => {
                proof {
                    reveal_strlit("ROT_EXP");
                }
                Symbol::short("ROT_EXP")
            },
            QuickLendXError::ArithmeticOverflow => {
                proof {
                    reveal_strlit("ARITH_OF");
                }
                Symbol::short("ARITH_OF")
            },
            QuickLendXError::RotationTimelockNotElapsed => {
                proof {
                    reveal_strlit("ROT_TLK");
                }
                Symbol::short("ROT_TLK")
            },
            QuickLendXError::NoPendingTreasuryRotation => {
                proof {
                    reveal_strlit("ROT_NOPND");
                }
                Symbol::short("ROT_NOPND")
            },
            QuickLendXError::DisputeNotFound => {
                proof {
                    reveal_strlit("DSP_NF");
                }
                Symbol::short("DSP_NF")
            },
            QuickLendXError::DisputeAlreadyExists => {
                proof {
                    reveal_strlit("DSP_EX");
                }
                Symbol::short("DSP_EX")
            },
            QuickLendXError::DisputeNotAuthorized => {
                proof {
                    reveal_strlit("DSP_NA");
                }
                Symbol::short("DSP_NA")
            },
            QuickLendXError::DisputeAlreadyResolved => {
                proof {
                    reveal_strlit("DSP_RS");
                }
                Symbol::short("DSP_RS")
            },
            QuickLendXError::DisputeNotUnderReview => {
                proof {
                    reveal_strlit("DSP_UR");
                }
                Symbol::short("DSP_UR")
            },
            QuickLendXError::InvalidDisputeReason => {
                proof {
                    reveal_strlit("DSP_RN");
                }
                Symbol::short("DSP_RN")
            },
            QuickLendXError::InvalidDisputeEvidence => {
                proof {
                    reveal_strlit("DSP_EV");
                }
                Symbol::short("DSP_EV")
            },
            QuickLendXError::NotificationNotFound => {
                proof {
                    reveal_strlit("NOT_NF");
                }
                Symbol::short("NOT_NF")
            },
            QuickLendXError::NotificationBlocked => {
                proof {
                    reveal_strlit("NOT_BL");
                }
                Symbol::short("NOT_BL")
            },
            QuickLendXError::NotificationDuplicate => {
                proof {
                    reveal_strlit("NOT_DUP");
                }
                Symbol::short("NOT_DUP")
            },
            QuickLendXError::ContractPaused => {
                proof {
                    reveal_strlit("PAUSED");
                }
                Symbol::short("PAUSED")
            },
            QuickLendXError::EmergencyWithdrawNotFound => {
                proof {
                    reveal_strlit("EMG_NF");
                }
                Symbol::short("EMG_NF")
            },
            QuickLendXError::EmergencyWithdrawTimelockNotElapsed => {
                proof {
                    reveal_strlit("EMG_TLK");
                }
                Symbol::short("EMG_TLK")
            },
            QuickLendXError::EmergencyWithdrawExpired => {
                proof {
                    reveal_strlit("EMG_EXP");
                }
                Symbol::short("EMG_EXP")
            },
            QuickLendXError::EmergencyWithdrawCancelled => {
                proof {
                    reveal_strlit("EMG_CNL");
                }
                Symbol::short("EMG_CNL")
            },
            QuickLendXError::EmergencyWithdrawAlreadyExists => {
                proof {
                    reveal_strlit("EMG_EX");
                }
                Symbol::short("EMG_EX")
            },
            QuickLendXError::EmergencyWithdrawInsufficientBalance => {
                proof {
                    reveal_strlit("EMG_BAL");
                }
                Symbol::short("EMG_BAL")
            },
            QuickLendXError::TokenTransferFailed => {
                proof {
                    reveal_strlit("TKN_FAIL");
                }
                Symbol::short("TKN_FAIL")
            },
            QuickLendXError::MaintenanceModeActive => {
                proof {
                    reveal_strlit("MAINT");
                }
                Symbol::short("MAINT")
            },
            QuickLendXError::DuplicateDefaultTransition => {
                proof {
                    reveal_strlit("DEF_DUP");
                }
                Symbol::short("DEF_DUP")
            },
            QuickLendXError::BackupVersionUnsupported => {
                proof {
                    reveal_strlit("BKP_VER");
                }
                Symbol::short("BKP_VER")
            },
            QuickLendXError::DuplicateBid => {
                proof {
                    reveal_strlit("DUP_BID");
                }
                Symbol::short("DUP_BID")
            },
            QuickLendXError::InvalidLedgerSequence => {
                proof {
                    reveal_strlit("INV_SEQ");
                }
                Symbol::short("INV_SEQ")
            },
            QuickLendXError::UnstableCursor => {
                proof {
                    reveal_strlit("UNSTB_CUR");
                }
                Symbol::short("UNSTB_CUR")
            },
        }
    }
}

impl From<QuickLendXError> for Symbol {
    fn from(error: QuickLendXError) -> (r: Symbol) {
        error.symbol()
    }
}

impl vstd::std_specs::convert::FromSpecImpl<QuickLendXError> for Symbol {
    open spec fn obeys_from_spec() -> bool {
        true
    }

    open spec fn from_spec(v: QuickLendXError) -> Symbol {
        Symbol::spec_short(v.symbol_name())
    }
}

/// Distinct errors have distinct numeric codes, so a code names one error.
pub proof fn law_error_codes_distinct(a: QuickLendXError, b: QuickLendXError)
    ensures
        a.spec_code() == b.spec_code() ==> a == b,
{
}

/// The packed body of each error's symbol, as a number.
spec fn packed_symbol_body(e: QuickLendXError) -> u64 {
    match e {
        QuickLendXError::InvoiceNotFound => 21902923345,
        QuickLendXError::InvoiceNotAvailableForFunding => 1401787093777,
        QuickLendXError::InvoiceAlreadyFunded => 21902922513,
        QuickLendXError::InvoiceAmountInvalid => 21902922516,
        QuickLendXError::InvoiceDueDateInvalid => 21902922708,
        QuickLendXError::InvoiceNotFunded => 1401787094095,
        QuickLendXError::InvoiceAlreadyDefaulted => 21902922511,
        QuickLendXError::InvoiceFrozen => 1401787062117,
        QuickLendXError::Unauthorized => 34782447571,
        QuickLendXError::NotBusinessOwner => 1746424670361,
        QuickLendXError::NotInvestor => 1746424645217,
        QuickLendXError::NotAdmin => 1746424611800,
        QuickLendXError::SelfCallNotAllowed => 2079154509388,
        QuickLendXError::InvalidAmount => 1401787041311,
        QuickLendXError::InvalidAddress => 1401787040733,
        QuickLendXError::InvalidCurrency => 21902922653,
        QuickLendXError::InvalidTimestamp => 21902923736,
        QuickLendXError::InvalidDescription => 21902922718,
        QuickLendXError::SelfTransfer => 2086565983325,
        QuickLendXError::StorageError => 511551312,
        QuickLendXError::StorageKeyNotFound => 23900198481,
        QuickLendXError::InsufficientFunds => 342222865,
        QuickLendXError::InvalidStatus => 21902923679,
        QuickLendXError::OperationNotAllowed => 443291212,
        QuickLendXError::PaymentTooLow => 1868915111586,
        QuickLendXError::PlatformAccountNotConfigured => 29385037390,
        QuickLendXError::InvalidCoveragePercentage => 21902136225,
        QuickLendXError::MaxBidsPerInvoiceExceeded => 106415351219166,
        QuickLendXError::MaxActiveBidsPerInvestorExceeded => 1662739858335,
        QuickLendXError::MaxInvoicesPerBusinessExceeded => 1662739891809,
        QuickLendXError::InvalidBidTtl => 1401787119575,
        QuickLendXError::InvalidRating => 21902923615,
        QuickLendXError::NotFunded => 27287884879,
        QuickLendXError::AlreadyRated => 13278386015,
        QuickLendXError::NotRater => 27287885663,
        QuickLendXError::InvalidRatingOverrideReason => 8299210957248409,
        QuickLendXError::BusinessNotVerified => 14503384673,
        QuickLendXError::KYCAlreadyPending => 24229975759,
        QuickLendXError::KYCAlreadyVerified => 24229976145,
        QuickLendXError::KYCNotFound => 24229975633,
        QuickLendXError::InvalidKYCStatus => 24229975326,
        QuickLendXError::InvestorNotVerified => 21902923361,
        QuickLendXError::BusinessDeleted => 928216577047,
        QuickLendXError::AuditLogNotFound => 13425710673,
        QuickLendXError::AuditIntegrityError => 13425710352,
        QuickLendXError::AuditQueryError => 13425710864,
        QuickLendXError::InvalidTag => 1401787118354,
        QuickLendXError::TagLimitExceeded => 2143491028248,
        QuickLendXError::InvalidFeeConfiguration => 1185679729746,
        QuickLendXError::TreasuryNotConfigured => 33780405838,
        QuickLendXError::InvalidFeeBasisPoints => 1185679726302,
        QuickLendXError::RotationAlreadyPending => 2021302580815,
        QuickLendXError::RotationNotFound => 31582852689,
        QuickLendXError::RotationExpired => 2021302536411,
        QuickLendXError::ArithmeticOverflow => 54791422875281,
        QuickLendXError::RotationTimelockNotElapsed => 2021302597078,
        QuickLendXError::NoPendingTreasuryRotation => 8279255337776719,
        QuickLendXError::DisputeNotFound => 16616527441,
        QuickLendXError::DisputeAlreadyExists => 16616526883,
        QuickLendXError::DisputeNotAuthorized => 16616527436,
        QuickLendXError::DisputeAlreadyResolved => 16616527710,
        QuickLendXError::DisputeNotUnderReview => 16616527901,
        QuickLendXError::InvalidDisputeReason => 16616527705,
        QuickLendXError::InvalidDisputeEvidence => 16616526881,
        QuickLendXError::NotificationNotFound => 27287885393,
        QuickLendXError::NotificationBlocked => 27287884631,
        QuickLendXError::NotificationDuplicate => 1746424625179,
        QuickLendXError::ContractPaused => 29200868367,
        QuickLendXError::EmergencyWithdrawNotFound => 17587246673,
        QuickLendXError::EmergencyWithdrawTimelockNotElapsed => 1125583812054,
        QuickLendXError::EmergencyWithdrawExpired => 1125583751387,
        QuickLendXError::EmergencyWithdrawCancelled => 1125583742551,
        QuickLendXError::EmergencyWithdrawAlreadyExists => 17587246115,
        QuickLendXError::EmergencyWithdrawInsufficientBalance => 1125583737623,
        QuickLendXError::TokenTransferFailed => 137878135162135,
        QuickLendXError::MaintenanceModeActive => 405882463,
        QuickLendXError::DuplicateDefaultTransition => 1048257558555,
        QuickLendXError::BackupVersionUnsupported => 917428900893,
        QuickLendXError::DuplicateBid => 1065605190927,
        QuickLendXError::InvalidLedgerSequence => 1401787114524,
        QuickLendXError::UnstableCursor => 9119245506242589,
    }
}

#[verifier::rlimit(50)]
proof fn lemma_packed_symbol_body(e: QuickLendXError)
    ensures
        symbol_body(e.symbol_name()) == packed_symbol_body(e),
{
    reveal_with_fuel(symbol_body, 10);
    match e {
        QuickLendXError::InvoiceNotFound => {
            reveal_strlit("INV_NF");
        },
        QuickLendXError::InvoiceNotAvailableForFunding => {
            reveal_strlit("INV_NAF");
        },
        QuickLendXError::InvoiceAlreadyFunded => {
            reveal_strlit("INV_AF");
        },
        QuickLendXError::InvoiceAmountInvalid => {
            reveal_strlit("INV_AI");
        },
        QuickLendXError::InvoiceDueDateInvalid => {
            reveal_strlit("INV_DI");
        },
        QuickLendXError::InvoiceNotFunded => {
            reveal_strlit("INV_NFD");
        },
        QuickLendXError::InvoiceAlreadyDefaulted => {
            reveal_strlit("INV_AD");
        },
        QuickLendXError::InvoiceFrozen => {
            reveal_strlit("INV_FRZ");
        },
        QuickLendXError::Unauthorized => {
            reveal_strlit("UNAUTH");
        },
        QuickLendXError::NotBusinessOwner => {
            reveal_strlit("NOT_OWN");
        },
        QuickLendXError::NotInvestor => {
            reveal_strlit("NOT_INV");
        },
        QuickLendXError::NotAdmin => {
            reveal_strlit("NOT_ADM");
        },
        QuickLendXError::SelfCallNotAllowed => {
            reveal_strlit("SELF_NA");
        },
        QuickLendXError::InvalidAmount => {
            reveal_strlit("INV_AMT");
        },
        QuickLendXError::InvalidAddress => {
            reveal_strlit("INV_ADR");
        },
        QuickLendXError::InvalidCurrency => {
            reveal_strlit("INV_CR");
        },
        QuickLendXError::InvalidTimestamp => {
            reveal_strlit("INV_TM");
        },
        QuickLendXError::InvalidDescription => {
            reveal_strlit("INV_DS");
        },
        QuickLendXError::SelfTransfer => {
            reveal_strlit("SLF_XFR");
        },
        QuickLendXError::StorageError => {
            reveal_strlit("STORE");
        },
        QuickLendXError::StorageKeyNotFound => {
            reveal_strlit("KEY_NF");
        },
        QuickLendXError::InsufficientFunds => {
            reveal_strlit("INSUF");
        },
        QuickLendXError::InvalidStatus => {
            reveal_strlit("INV_ST");
        },
        QuickLendXError::OperationNotAllowed => {
            reveal_strlit("OP_NA");
        },
        QuickLendXError::PaymentTooLow => {
            reveal_strlit("PAY_LOW");
        },
        QuickLendXError::PlatformAccountNotConfigured => {
            reveal_strlit("PLT_NC");
        },
        QuickLendXError::InvalidCoveragePercentage => {
            reveal_strlit("INS_CV");
        },
        QuickLendXError::MaxBidsPerInvoiceExceeded => {
            reveal_strlit("MAX_BIDS");
        },
        QuickLendXError::MaxActiveBidsPerInvestorExceeded => {
            reveal_strlit("MAX_ACT");
        },
        QuickLendXError::MaxInvoicesPerBusinessExceeded => {
            reveal_strlit("MAX_INV");
        },
        QuickLendXError::InvalidBidTtl => {
            reveal_strlit("INV_TTL");
        },
        QuickLendXError::InvalidRating => {
            reveal_strlit("INV_RT");
        },
        QuickLendXError::NotFunded => {
            reveal_strlit("NOT_FD");
        },
        QuickLendXError::AlreadyRated => {
            reveal_strlit("ALR_RT");
        },
        QuickLendXError::NotRater => {
            reveal_strlit("NOT_RT");
        },
        QuickLendXError::InvalidRatingOverrideReason => {
            reveal_strlit("RT_OV_RSN");
        },
        QuickLendXError::BusinessNotVerified => {
            reveal_strlit("BUS_NV");
        },
        QuickLendXError::KYCAlreadyPending => {
            reveal_strlit("KYC_PD");
        },
        QuickLendXError::KYCAlreadyVerified => {
            reveal_strlit("KYC_VF");
        },
        QuickLendXError::KYCNotFound => {
            reveal_strlit("KYC_NF");
        },
        QuickLendXError::InvalidKYCStatus => {
            reveal_strlit("KYC_IS");
        },
        QuickLendXError::InvestorNotVerified => {
            reveal_strlit("INV_NV");
        },
        QuickLendXError::BusinessDeleted => {
            reveal_strlit("BUS_DEL");
        },
        QuickLendXError::AuditLogNotFound => {
            reveal_strlit("AUD_NF");
        },
        QuickLendXError::AuditIntegrityError => {
            reveal_strlit("AUD_IE");
        },
        QuickLendXError::AuditQueryError => {
            reveal_strlit("AUD_QE");
        },
        QuickLendXError::InvalidTag => {
            reveal_strlit("INV_TAG");
        },
        QuickLendXError::TagLimitExceeded => {
            reveal_strlit("TAG_LIM");
        },
        QuickLendXError::InvalidFeeConfiguration => {
            reveal_strlit("FEE_CFG");
        },
        QuickLendXError::TreasuryNotConfigured => {
            reveal_strlit("TRS_NC");
        },
        QuickLendXError::InvalidFeeBasisPoints => {
            reveal_strlit("FEE_BPS");
        },
        QuickLendXError::RotationAlreadyPending => {
            reveal_strlit("ROT_PND");
        },
        QuickLendXError::RotationNotFound => {
            reveal_strlit("ROT_NF");
        },
        QuickLendXError::RotationExpired => {
            reveal_strlit("ROT_EXP");
        },
        QuickLendXError::ArithmeticOverflow => {
            reveal_strlit("ARITH_OF");
        },
        QuickLendXError::RotationTimelockNotElapsed => {
            reveal_strlit("ROT_TLK");
        },
        QuickLendXError::NoPendingTreasuryRotation => {
            reveal_strlit("ROT_NOPND");
        },
        QuickLendXError::DisputeNotFound => {
            reveal_strlit("DSP_NF");
        },
        QuickLendXError::DisputeAlreadyExists => {
            reveal_strlit("DSP_EX");
        },
        QuickLendXError::DisputeNotAuthorized => {
            reveal_strlit("DSP_NA");
        },
        QuickLendXError::DisputeAlreadyResolved => {
            reveal_strlit("DSP_RS");
        },
        QuickLendXError::DisputeNotUnderReview => {
            reveal_strlit("DSP_UR");
        },
        QuickLendXError::InvalidDisputeReason => {
            reveal_strlit("DSP_RN");
        },
        QuickLendXError::InvalidDisputeEvidence => {
            reveal_strlit("DSP_EV");
        },
        QuickLendXError::NotificationNotFound => {
            reveal_strlit("NOT_NF");
        },
        QuickLendXError::NotificationBlocked => {
            reveal_strlit("NOT_BL");
        },
        QuickLendXError::NotificationDuplicate => {
            reveal_strlit("NOT_DUP");
        },
        QuickLendXError::ContractPaused => {
            reveal_strlit("PAUSED");
        },
        QuickLendXError::EmergencyWithdrawNotFound => {
            reveal_strlit("EMG_NF");
        },
        QuickLendXError::EmergencyWithdrawTimelockNotElapsed => {
            reveal_strlit("EMG_TLK");
        },
        QuickLendXError::EmergencyWithdrawExpired => {
            reveal_strlit("EMG_EXP");
        },
        QuickLendXError::EmergencyWithdrawCancelled => {
            reveal_strlit("EMG_CNL");
        },
        QuickLendXError::EmergencyWithdrawAlreadyExists => {
            reveal_strlit("EMG_EX");
        },
        QuickLendXError::EmergencyWithdrawInsufficientBalance => {
            reveal_strlit("EMG_BAL");
        },
        QuickLendXError::TokenTransferFailed => {
            reveal_strlit("TKN_FAIL");
        },
        QuickLendXError::MaintenanceModeActive => {
            reveal_strlit("MAINT");
        },
        QuickLendXError::DuplicateDefaultTransition => {
            reveal_strlit("DEF_DUP");
        },
        QuickLendXError::BackupVersionUnsupported => {
            reveal_strlit("BKP_VER");
        },
        QuickLendXError::DuplicateBid => {
            reveal_strlit("DUP_BID");
        },
        QuickLendXError::InvalidLedgerSequence => {
            reveal_strlit("INV_SEQ");
        },
        QuickLendXError::UnstableCursor => {
            reveal_strlit("UNSTB_CUR");
        },
    }
}

/// Distinct errors are reported under distinct symbols, so a reader of the
/// events can tell any two errors apart.
pub proof fn law_error_symbols_distinct(a: QuickLendXError, b: QuickLendXError)
    ensures
        a != b ==> Symbol::spec_short(a.symbol_name()) != Symbol::spec_short(b.symbol_name()),
{
    lemma_packed_symbol_body(a);
    lemma_packed_symbol_body(b);
    assert(a != b ==> packed_symbol_body(a) != packed_symbol_body(b));
}

} // verus!
