use quicklendx::errors::QuickLendXError;
use quicklendx::protocol_limits::is_active_status;
use quicklendx::source_scan::find_keyword;
use quicklendx::storage::{persistent_ttl_extension, Indexes, InvoiceStorage, StorageKeys};
use quicklendx::symbol::Symbol;
use quicklendx::types::{
    Address, AddressKind, BidStatus, BytesN32, DisputeResolution, InvestmentStatus,
    InvoiceCategory, InvoiceLock, InvoiceStatus,
};

fn host_body(name: &str) -> u64 {
    soroban_sdk::Symbol::short(name).to_val().get_payload() >> 8
}

#[test]
fn short_symbols_encode_like_the_host() {
    for name in ["", "a", "fees", "inv_count", "Z9_", "pending", "ROT_NOPND", "UNSTB_CUR"] {
        assert_eq!(Symbol::short(name).body, host_body(name), "symbol {name}");
    }
}

#[test]
fn short_symbol_bodies_have_exact_values() {
    assert_eq!(Symbol::short("").body, 0);
    // '_' is 1, digits follow, then upper case, then lower case.
    assert_eq!(Symbol::short("_").body, 1);
    assert_eq!(Symbol::short("0").body, 2);
    assert_eq!(Symbol::short("A").body, 12);
    assert_eq!(Symbol::short("a").body, 38);
    assert_eq!(Symbol::short("ab").body, 38 * 64 + 39);
}

#[test]
fn storage_key_symbols() {
    assert_eq!(StorageKeys::platform_fees(), Symbol::short("fees"));
    assert_eq!(StorageKeys::invoice_count(), Symbol::short("inv_count"));
    assert_eq!(StorageKeys::bid_count(), Symbol::short("bid_count"));
    assert_eq!(StorageKeys::investment_count(), Symbol::short("inv_cnt"));
}

#[test]
fn index_keys_name_their_buckets() {
    let who = Address { kind: AddressKind::Contract, key: BytesN32 { hi: 1, lo: 2 } };
    let inv = BytesN32 { hi: 3, lo: 4 };
    assert_eq!(Indexes::invoices_by_business(&who), (Symbol::short("inv_bus"), who));
    assert_eq!(
        Indexes::invoices_by_status(InvoiceStatus::Verified),
        (Symbol::short("inv_st"), Symbol::short("verified"))
    );
    assert_eq!(Indexes::bids_by_invoice(&inv), (Symbol::short("bids_inv"), inv));
    assert_eq!(Indexes::bids_by_investor(&who), (Symbol::short("bids_invr"), who));
    assert_eq!(
        Indexes::bids_by_status(BidStatus::Withdrawn),
        (Symbol::short("bids_stat"), Symbol::short("withdrawn"))
    );
    assert_eq!(Indexes::investments_by_invoice(&inv), (Symbol::short("invst_inv"), inv));
    assert_eq!(Indexes::investments_by_investor(&who), (Symbol::short("inv_invst"), who));
    assert_eq!(
        Indexes::investments_by_status(InvestmentStatus::Completed),
        (Symbol::short("inv_st"), Symbol::short("completed"))
    );
    assert_eq!(
        Indexes::invoices_by_customer(&"Acme".to_string()),
        (Symbol::short("inv_cust"), "Acme".to_string())
    );
    assert_eq!(
        Indexes::invoices_by_tax_id(&"T-1".to_string()),
        (Symbol::short("inv_taxid"), "T-1".to_string())
    );
    assert_eq!(
        Indexes::invoices_by_tag(&"q3".to_string()),
        (Symbol::short("inv_tag"), "q3".to_string())
    );
    assert_eq!(
        Indexes::invoices_by_category(InvoiceCategory::Consulting),
        (Symbol::short("inv_cat"), Symbol::short("consult"))
    );
    assert_eq!(
        Indexes::invoices_by_category(InvoiceCategory::Manufacturing),
        (Symbol::short("inv_cat"), Symbol::short("manufac"))
    );
}

#[test]
fn investment_and_invoice_status_keys_never_coincide() {
    // Both kinds of bucket use the "inv_st" prefix; the status symbol tells
    // them apart.
    let invoices = [
        InvoiceStatus::Pending,
        InvoiceStatus::Verified,
        InvoiceStatus::Funded,
        InvoiceStatus::Paid,
        InvoiceStatus::Defaulted,
        InvoiceStatus::Cancelled,
        InvoiceStatus::Refunded,
    ];
    let investments = [
        InvestmentStatus::Active,
        InvestmentStatus::Withdrawn,
        InvestmentStatus::Completed,
        InvestmentStatus::Defaulted,
        InvestmentStatus::Refunded,
    ];
    for t in investments {
        assert_eq!(Indexes::investments_by_status(t).0, Symbol::short("inv_st"));
        for s in invoices {
            assert_ne!(Indexes::investments_by_status(t), Indexes::invoices_by_status(s));
        }
    }
    assert_eq!(
        Indexes::investments_by_status(InvestmentStatus::Defaulted),
        (Symbol::short("inv_st"), Symbol::short("invst_dft"))
    );
    assert_eq!(
        Indexes::investments_by_status(InvestmentStatus::Refunded),
        (Symbol::short("inv_st"), Symbol::short("invst_rfd"))
    );
}

#[test]
fn category_keys_are_distinct() {
    let all = InvoiceStorage::get_all_categories();
    for (i, a) in all.iter().enumerate() {
        for (j, b) in all.iter().enumerate() {
            assert_eq!(Indexes::invoices_by_category(*a) == Indexes::invoices_by_category(*b), i == j);
        }
    }
}

#[test]
fn persistent_ttl_is_thirty_days_of_ledgers() {
    assert_eq!(persistent_ttl_extension(), 518_400);
    assert_eq!(persistent_ttl_extension() as u64 * 5, 30 * 24 * 3600);
}

#[test]
fn error_codes_are_stable() {
    assert_eq!(QuickLendXError::InvoiceNotFound.code(), 1000);
    assert_eq!(QuickLendXError::InvoiceFrozen.code(), 1007);
    assert_eq!(QuickLendXError::Unauthorized.code(), 1100);
    assert_eq!(QuickLendXError::SelfCallNotAllowed.code(), 1104);
    assert_eq!(QuickLendXError::ArithmeticOverflow.code(), 1856);
    assert_eq!(QuickLendXError::NoPendingTreasuryRotation.code(), 1858);
    assert_eq!(QuickLendXError::UnstableCursor.code(), 2206);
}

#[test]
fn error_symbols() {
    assert_eq!(QuickLendXError::InvoiceNotFound.symbol(), Symbol::short("INV_NF"));
    assert_eq!(Symbol::from(QuickLendXError::InvoiceNotAvailableForFunding), Symbol::short("INV_NAF"));
    assert_eq!(QuickLendXError::ArithmeticOverflow.symbol(), Symbol::short("ARITH_OF"));
    assert_eq!(QuickLendXError::NoPendingTreasuryRotation.symbol(), Symbol::short("ROT_NOPND"));
    assert_eq!(
        QuickLendXError::NoPendingTreasuryRotation.symbol().body,
        host_body("ROT_NOPND")
    );
}

#[test]
fn terminal_statuses() {
    assert!(!InvoiceStatus::Pending.is_terminal());
    assert!(!InvoiceStatus::Verified.is_terminal());
    assert!(!InvoiceStatus::Funded.is_terminal());
    assert!(InvoiceStatus::Paid.is_terminal());
    assert!(InvoiceStatus::Defaulted.is_terminal());
    assert!(InvoiceStatus::Cancelled.is_terminal());
    assert!(InvoiceStatus::Refunded.is_terminal());
}

#[test]
fn active_statuses_are_the_open_ones() {
    assert!(is_active_status(&InvoiceStatus::Pending));
    assert!(is_active_status(&InvoiceStatus::Verified));
    assert!(is_active_status(&InvoiceStatus::Funded));
    assert!(!is_active_status(&InvoiceStatus::Paid));
    assert!(!is_active_status(&InvoiceStatus::Refunded));
}

#[test]
fn lock_states() {
    assert!(!InvoiceLock::Unlocked.is_locked());
    assert!(InvoiceLock::Frozen.is_locked());
}

#[test]
fn dispute_resolution_codes() {
    assert_eq!(DisputeResolution::NoResolution.code(), 0);
    assert_eq!(DisputeResolution::FavorBusiness.code(), 1);
    assert_eq!(DisputeResolution::FavorInvestor.code(), 2);
    assert_eq!(DisputeResolution::Split.code(), 3);
    assert_eq!(DisputeResolution::Dismissed.code(), 4);
}

#[test]
fn keyword_search_honours_word_flags() {
    let chars: Vec<char> = "x unsafe y".chars().collect();
    let flags: Vec<bool> = chars.iter().map(|c| c.is_alphanumeric() || *c == '_').collect();
    assert!(find_keyword(&chars, &flags));
    // Marking the space before the keyword as a word character hides it.
    let mut hidden = flags.clone();
    hidden[1] = true;
    assert!(!find_keyword(&chars, &hidden));
}

fn all_errors() -> Vec<QuickLendXError> {
    vec![
    QuickLendXError::InvoiceNotFound,
    QuickLendXError::InvoiceNotAvailableForFunding,
    QuickLendXError::InvoiceAlreadyFunded,
    QuickLendXError::InvoiceAmountInvalid,
    QuickLendXError::InvoiceDueDateInvalid,
    QuickLendXError::InvoiceNotFunded,
    QuickLendXError::InvoiceAlreadyDefaulted,
    QuickLendXError::InvoiceFrozen,
    QuickLendXError::Unauthorized,
    QuickLendXError::NotBusinessOwner,
    QuickLendXError::NotInvestor,
    QuickLendXError::NotAdmin,
    QuickLendXError::SelfCallNotAllowed,
    QuickLendXError::InvalidAmount,
    QuickLendXError::InvalidAddress,
    QuickLendXError::InvalidCurrency,
    QuickLendXError::InvalidTimestamp,
    QuickLendXError::InvalidDescription,
    QuickLendXError::SelfTransfer,
    QuickLendXError::StorageError,
    QuickLendXError::StorageKeyNotFound,
    QuickLendXError::InsufficientFunds,
    QuickLendXError::InvalidStatus,
    QuickLendXError::OperationNotAllowed,
    QuickLendXError::PaymentTooLow,
    QuickLendXError::PlatformAccountNotConfigured,
    QuickLendXError::InvalidCoveragePercentage,
    QuickLendXError::MaxBidsPerInvoiceExceeded,
    QuickLendXError::MaxActiveBidsPerInvestorExceeded,
    QuickLendXError::MaxInvoicesPerBusinessExceeded,
    QuickLendXError::InvalidBidTtl,
    QuickLendXError::InvalidRating,
    QuickLendXError::NotFunded,
    QuickLendXError::AlreadyRated,
    QuickLendXError::NotRater,
    QuickLendXError::InvalidRatingOverrideReason,
    QuickLendXError::BusinessNotVerified,
    QuickLendXError::KYCAlreadyPending,
    QuickLendXError::KYCAlreadyVerified,
    QuickLendXError::KYCNotFound,
    QuickLendXError::InvalidKYCStatus,
    QuickLendXError::InvestorNotVerified,
    QuickLendXError::BusinessDeleted,
    QuickLendXError::AuditLogNotFound,
    QuickLendXError::AuditIntegrityError,
    QuickLendXError::AuditQueryError,
    QuickLendXError::InvalidTag,
    QuickLendXError::TagLimitExceeded,
    QuickLendXError::InvalidFeeConfiguration,
    QuickLendXError::TreasuryNotConfigured,
    QuickLendXError::InvalidFeeBasisPoints,
    QuickLendXError::RotationAlreadyPending,
    QuickLendXError::RotationNotFound,
    QuickLendXError::RotationExpired,
    QuickLendXError::ArithmeticOverflow,
    QuickLendXError::RotationTimelockNotElapsed,
    QuickLendXError::NoPendingTreasuryRotation,
    QuickLendXError::DisputeNotFound,
    QuickLendXError::DisputeAlreadyExists,
    QuickLendXError::DisputeNotAuthorized,
    QuickLendXError::DisputeAlreadyResolved,
    QuickLendXError::DisputeNotUnderReview,
    QuickLendXError::InvalidDisputeReason,
    QuickLendXError::InvalidDisputeEvidence,
    QuickLendXError::NotificationNotFound,
    QuickLendXError::NotificationBlocked,
    QuickLendXError::NotificationDuplicate,
    QuickLendXError::ContractPaused,
    QuickLendXError::EmergencyWithdrawNotFound,
    QuickLendXError::EmergencyWithdrawTimelockNotElapsed,
    QuickLendXError::EmergencyWithdrawExpired,
    QuickLendXError::EmergencyWithdrawCancelled,
    QuickLendXError::EmergencyWithdrawAlreadyExists,
    QuickLendXError::EmergencyWithdrawInsufficientBalance,
    QuickLendXError::TokenTransferFailed,
    QuickLendXError::MaintenanceModeActive,
    QuickLendXError::DuplicateDefaultTransition,
    QuickLendXError::BackupVersionUnsupported,
    QuickLendXError::DuplicateBid,
    QuickLendXError::InvalidLedgerSequence,
    QuickLendXError::UnstableCursor,
    ]
}

#[test]
fn every_error_has_its_own_code_and_symbol() {
    let errors = all_errors();
    assert_eq!(errors.len(), 81);
    let mut codes: Vec<u32> = errors.iter().map(|e| e.code()).collect();
    codes.sort();
    codes.dedup();
    assert_eq!(codes.len(), 81);
    let mut bodies: Vec<u64> = errors.iter().map(|e| e.symbol().body).collect();
    bodies.sort();
    bodies.dedup();
    assert_eq!(bodies.len(), 81);
}
