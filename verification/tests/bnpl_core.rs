use bnpl_ledger::fees::{FEE_TO_LP_RATIO, LATE_INTEREST_APR, MERCHANT_FEE_RATE, SCALE_7};
use bnpl_ledger::{
    BillStatus, Error, LpToken, MerchantStatus, TokenMetadata, UnifiedBNPLContract, UsdcToken,
};
use soroban_sdk::{Env, String};

const ADMIN: u64 = 1;
const TREASURY: u64 = 2;
const INSURANCE: u64 = 3;
const USDC: u64 = 4;
const POOL: u64 = 5;
const CORE: u64 = 6;
const MERCHANT: u64 = 10;
const USER: u64 = 11;
const LIQUIDATOR: u64 = 12;
const ADMIN1: u64 = 13;
const ADMIN2: u64 = 14;

const DAY: u64 = 86400;

/// The pool balance that every account is given where a test needs collateral.
const COLLATERAL: i128 = 1_000_000_000;

struct Ledgers {
    env: Env,
    core: UnifiedBNPLContract,
    pool: LpToken,
    token: UsdcToken,
}

fn create_core_test_env() -> Ledgers {
    let env = Env::default();
    let mut token = UsdcToken::new();
    token
        .initialize(
            ADMIN,
            String::from_str(&env, "USD Coin"),
            String::from_str(&env, "USDC"),
            7,
            i128::MAX,
        )
        .unwrap();
    let mut pool = LpToken::new(&env, POOL);
    pool.initialize(
        ADMIN,
        USDC,
        TokenMetadata {
            name: String::from_str(&env, "LP Token"),
            symbol: String::from_str(&env, "LP"),
            decimal: 9,
        },
    )
    .unwrap();
    pool.set_bnpl_core(CORE).unwrap();
    let core = UnifiedBNPLContract::new(CORE);
    Ledgers { env, core, pool, token }
}

fn initialize(l: &mut Ledgers, admin: u64) {
    l.core.initialize(POOL, USDC, admin, TREASURY, INSURANCE).unwrap();
}

fn approve_merchant(l: &mut Ledgers, admin: u64, merchant: u64) {
    let id = String::from_str(&l.env, "MERCHANT_001");
    l.core.enroll_merchant(merchant, id).unwrap();
    l.core.update_merchant_status(admin, merchant, MerchantStatus::Approved).unwrap();
}

fn fund_pool(l: &mut Ledgers, minted: i128, to_pool: i128) {
    l.token.mint(ADMIN, minted, 0).unwrap();
    l.token.transfer(ADMIN, POOL, to_pool).unwrap();
}

#[test]
fn test_test_initialization() {
    let mut l = create_core_test_env();
    l.core.initialize(POOL, USDC, ADMIN, TREASURY, INSURANCE).unwrap();

    let config = l.core.get_config().unwrap();
    assert_eq!(config.liquidity_pool, POOL);
    assert_eq!(config.usdc_token, USDC);
    assert_eq!(config.treasury, TREASURY);
    assert_eq!(config.insurance_fund, INSURANCE);
    assert_eq!(config.admin, ADMIN);
}

#[test]
#[should_panic(expected = "Already initialized")]
fn test_test_double_initialization() {
    let mut l = create_core_test_env();
    l.core.initialize(POOL, USDC, ADMIN, TREASURY, INSURANCE).unwrap();

    let again = l.core.initialize(POOL, USDC, ADMIN, TREASURY, INSURANCE);
    assert_eq!(again, Err(Error::AlreadyInitialized));
    panic!("Already initialized");
}

#[test]
fn test_admin_management() {
    let mut l = create_core_test_env();
    l.core.initialize(POOL, USDC, ADMIN1, TREASURY, INSURANCE).unwrap();
    assert_eq!(l.core.is_admin(ADMIN1), Ok(true));
    assert_eq!(l.core.is_admin(ADMIN2), Ok(false));
}

#[test]
fn test_merchant_enrollment() {
    let mut l = create_core_test_env();
    initialize(&mut l, ADMIN);

    let merchant_info_id = String::from_str(&l.env, "MERCHANT_001");
    l.core.enroll_merchant(MERCHANT, merchant_info_id).unwrap();

    let merchant_data = l.core.get_merchant(MERCHANT).unwrap();
    assert_eq!(merchant_data.status, MerchantStatus::Pending);
}

#[test]
fn test_merchant_approval() {
    let mut l = create_core_test_env();
    initialize(&mut l, ADMIN);

    let merchant_info_id = String::from_str(&l.env, "MERCHANT_001");
    l.core.enroll_merchant(MERCHANT, merchant_info_id).unwrap();
    l.core.update_merchant_status(ADMIN, MERCHANT, MerchantStatus::Approved).unwrap();

    let merchant_data = l.core.get_merchant(MERCHANT).unwrap();
    assert_eq!(merchant_data.status, MerchantStatus::Approved);
}

#[test]
fn test_create_bill() {
    let mut l = create_core_test_env();
    initialize(&mut l, ADMIN);
    approve_merchant(&mut l, ADMIN, MERCHANT);
    fund_pool(&mut l, 10_000_000, 10_000_000);

    let amount = 1_000_000;
    let order_id = String::from_str(&l.env, "ORDER_001");
    let bill_id = l.core.create_bill(MERCHANT, USER, amount, order_id, 0).unwrap();

    let bill = l.core.get_bill(bill_id).unwrap();
    assert_eq!(bill.merchant, MERCHANT);
    assert_eq!(bill.user, USER);
    assert_eq!(bill.principal, amount);
    assert_eq!(bill.status, BillStatus::Created);
}

#[test]
fn test_pay_bill() {
    let mut l = create_core_test_env();
    initialize(&mut l, ADMIN);
    approve_merchant(&mut l, ADMIN, MERCHANT);
    l.pool.mint(USER, COLLATERAL).unwrap();

    l.token.mint(ADMIN, 10_000_000, 0).unwrap();
    l.token.mint(USER, 10_000_000, 0).unwrap();
    l.token.transfer(ADMIN, POOL, 10_000_000).unwrap();

    let amount = 1_000_000;
    let order_id = String::from_str(&l.env, "ORDER_001");
    let bill_id = l.core.create_bill(MERCHANT, USER, amount, order_id, 0).unwrap();

    l.core.pay_bill_bnpl(&l.env, &mut l.pool, &mut l.token, bill_id, 0).unwrap();

    let bill = l.core.get_bill(bill_id).unwrap();
    assert_eq!(bill.status, BillStatus::Paid);

    let liquidity_pool_balance = l.token.balance(POOL);
    assert_eq!(
        liquidity_pool_balance,
        10_000_000 - amount + amount * MERCHANT_FEE_RATE * FEE_TO_LP_RATIO / SCALE_7 / SCALE_7
    );

    let merchant_balance = l.token.balance(MERCHANT);
    assert_eq!(merchant_balance, amount * (SCALE_7 - MERCHANT_FEE_RATE) / SCALE_7);
}

#[test]
fn test_repay_bill() {
    let mut l = create_core_test_env();
    initialize(&mut l, ADMIN);
    approve_merchant(&mut l, ADMIN, MERCHANT);
    l.pool.mint(USER, COLLATERAL).unwrap();

    fund_pool(&mut l, 10_000_000, 5_000_000);
    l.token.mint(USER, 2_000_000, 0).unwrap();

    let amount = 1_000_000;
    let order_id = String::from_str(&l.env, "ORDER_001");
    let bill_id = l.core.create_bill(MERCHANT, USER, amount, order_id, 0).unwrap();

    l.core.pay_bill_bnpl(&l.env, &mut l.pool, &mut l.token, bill_id, 0).unwrap();

    l.token.approve(USER, CORE, amount, 0);
    l.core.repay_bill(&l.env, &mut l.pool, &mut l.token, bill_id, 0).unwrap();

    let bill = l.core.get_bill(bill_id).unwrap();
    assert_eq!(bill.status, BillStatus::Repaid);

    let user_balance = l.token.balance(USER);
    assert_eq!(user_balance, 2_000_000 - amount);
}

#[test]
fn test_liquidation() {
    let mut l = create_core_test_env();
    initialize(&mut l, ADMIN);
    approve_merchant(&mut l, ADMIN, MERCHANT);
    l.pool.mint(USER, COLLATERAL).unwrap();
    l.pool.mint(LIQUIDATOR, COLLATERAL).unwrap();

    fund_pool(&mut l, 10_000_000, 5_000_000);

    let amount = 1_000_000;
    let order_id = String::from_str(&l.env, "ORDER_001");
    let bill_id = l.core.create_bill(MERCHANT, USER, amount, order_id, 0).unwrap();

    l.core.pay_bill_bnpl(&l.env, &mut l.pool, &mut l.token, bill_id, 0).unwrap();

    let now = 29 * DAY;
    l.core.liquidate_bill(&l.env, &mut l.pool, &mut l.token, bill_id, LIQUIDATOR, now).unwrap();

    let bill = l.core.get_bill(bill_id).unwrap();
    assert_eq!(bill.status, BillStatus::Liquidated);
}

#[test]
fn test_get_user_borrowing_power() {
    let mut l = create_core_test_env();
    initialize(&mut l, ADMIN);
    l.pool.mint(USER, COLLATERAL).unwrap();

    let borrowing_power = l.core.get_user_borrowing_power(&l.pool, USER, 0).unwrap();

    assert_eq!(borrowing_power.lp_balance, 1_000_000_000);
    assert_eq!(borrowing_power.max_borrowing, 900_000_000);
    assert_eq!(borrowing_power.current_borrowed, 0);
    assert_eq!(borrowing_power.current_debt, 0);
    assert_eq!(borrowing_power.available_borrowing, 900_000_000);
}

#[test]
fn test_fee_distribution() {
    let mut l = create_core_test_env();
    initialize(&mut l, ADMIN);
    approve_merchant(&mut l, ADMIN, MERCHANT);
    l.pool.mint(USER, COLLATERAL).unwrap();

    fund_pool(&mut l, 10_000_000, 5_000_000);

    let amount = 1_000_000;
    let order_id = String::from_str(&l.env, "ORDER_001");
    let bill_id = l.core.create_bill(MERCHANT, USER, amount, order_id, 0).unwrap();

    l.core.pay_bill_bnpl(&l.env, &mut l.pool, &mut l.token, bill_id, 0).unwrap();

    let merchant_fee = (amount * 150_000) / 10_000_000;
    let lp_fee = (merchant_fee * 7_000_000) / 10_000_000;
    let treasury_fee = (merchant_fee * 2_000_000) / 10_000_000;
    let insurance_fee = (merchant_fee * 1_000_000) / 10_000_000;

    assert_eq!(l.token.balance(TREASURY), treasury_fee);
    assert_eq!(l.token.balance(INSURANCE), insurance_fee);
    assert_eq!(l.token.balance(POOL), 5_000_000 - amount + lp_fee);
}

#[test]
fn test_get_user_total_debt() {
    let mut l = create_core_test_env();
    initialize(&mut l, ADMIN);
    approve_merchant(&mut l, ADMIN, MERCHANT);
    l.pool.mint(USER, COLLATERAL).unwrap();

    fund_pool(&mut l, 100_000_000, 50_000_000);
    l.token.mint(USER, 20_000_000, 0).unwrap();

    let bill_amounts: [i128; 4] = [1_000_000, 2_000_000, 1_500_000, 3_000_000];
    let mut bill_ids: Vec<u64> = Vec::new();

    for (i, amount) in bill_amounts.iter().enumerate() {
        let order_id = match i {
            0 => String::from_str(&l.env, "ORDER_001"),
            1 => String::from_str(&l.env, "ORDER_002"),
            2 => String::from_str(&l.env, "ORDER_003"),
            3 => String::from_str(&l.env, "ORDER_004"),
            _ => String::from_str(&l.env, "ORDER_XXX"),
        };
        let bill_id = l.core.create_bill(MERCHANT, USER, *amount, order_id, 0).unwrap();
        bill_ids.push(bill_id);
    }

    for bill_id in bill_ids.iter() {
        l.core.pay_bill_bnpl(&l.env, &mut l.pool, &mut l.token, *bill_id, 0).unwrap();
    }

    let (total_interest, total_principal) = l.core.get_user_total_debt(USER, 0).unwrap();
    assert_eq!(total_principal, 7_500_000);
    assert_eq!(total_interest, 0);

    l.token.approve(USER, CORE, 3_000_000, 0);
    l.core.repay_bill(&l.env, &mut l.pool, &mut l.token, bill_ids[0], 0).unwrap();
    l.core.repay_bill(&l.env, &mut l.pool, &mut l.token, bill_ids[1], 0).unwrap();

    let (total_interest, total_principal) = l.core.get_user_total_debt(USER, 0).unwrap();
    assert_eq!(total_principal, 4_500_000);
    assert_eq!(total_interest, 0);

    let mut now = 15 * DAY;

    let (total_interest, total_principal) = l.core.get_user_total_debt(USER, now).unwrap();
    assert_eq!(total_principal, 4_500_000);

    let expected_late_fee_per_day = 4_500_000 * LATE_INTEREST_APR / SCALE_7 / 365;
    let expected_total_late_fee = expected_late_fee_per_day * 1;

    assert!((total_interest - expected_total_late_fee).abs() <= 1);

    now = now + 5 * DAY;

    let (total_interest, total_principal) = l.core.get_user_total_debt(USER, now).unwrap();
    assert_eq!(total_principal, 4_500_000);

    let expected_total_late_fee = expected_late_fee_per_day * 6;
    assert!((total_interest - expected_total_late_fee).abs() <= 6);

    let late_fee_for_one_bill = 1_500_000 * LATE_INTEREST_APR * 6 / SCALE_7 / 365;
    l.token.approve(USER, CORE, 1_500_000 + late_fee_for_one_bill + 1, 0);
    l.core.repay_bill(&l.env, &mut l.pool, &mut l.token, bill_ids[2], now).unwrap();

    let (total_interest, total_principal) = l.core.get_user_total_debt(USER, now).unwrap();
    assert_eq!(total_principal, 3_000_000);

    let expected_late_fee = 3_000_000 * LATE_INTEREST_APR * 6 / SCALE_7 / 365;
    assert!((total_interest - expected_late_fee).abs() <= 3);
}

#[test]
fn queries_on_a_ledger_that_is_not_initialized() {
    let l = create_core_test_env();
    assert_eq!(l.core.get_config(), Err(Error::NotInitialized));
    assert_eq!(l.core.is_admin(ADMIN), Err(Error::NotInitialized));
    assert_eq!(l.core.get_user_borrowing_power(&l.pool, USER, 0), Err(Error::NotInitialized));
    assert_eq!(l.core.get_user_total_debt(USER, 0), Ok((0, 0)));
    assert_eq!(l.core.get_user_required_collateral(USER, 0), Ok(0));
    assert_eq!(l.core.get_bill_counter(), 1);
    assert_eq!(l.core.address(), CORE);
    assert!(!l.core.has_config());
    assert!(!l.core.has_bill(0));
    assert!(!l.core.has_bill(1));
    assert!(matches!(l.core.get_bill(1), Err(Error::BillNotFound)));
    assert!(matches!(l.core.get_merchant(MERCHANT), Err(Error::MerchantNotFound)));
    assert_eq!(l.core.get_user_bills(&l.env, USER).len(), 0);
}

#[test]
fn merchants_enroll_once_and_only_the_admin_decides() {
    let mut l = create_core_test_env();
    let profile = String::from_str(&l.env, "MERCHANT_001");
    l.core.enroll_merchant(MERCHANT, profile.clone()).unwrap();
    assert_eq!(
        l.core.enroll_merchant(MERCHANT, String::from_str(&l.env, "OTHER")),
        Err(Error::MerchantAlreadyEnrolled)
    );
    assert_eq!(l.core.get_merchant(MERCHANT).unwrap().merchant_info_id, profile);

    assert_eq!(
        l.core.update_merchant_status(ADMIN, MERCHANT, MerchantStatus::Approved),
        Err(Error::NotInitialized)
    );
    initialize(&mut l, ADMIN);
    assert_eq!(
        l.core.update_merchant_status(USER, MERCHANT, MerchantStatus::Approved),
        Err(Error::NotAdmin)
    );
    assert_eq!(
        l.core.update_merchant_status(ADMIN, USER, MerchantStatus::Approved),
        Err(Error::MerchantNotFound)
    );
    assert!(!l.core.is_merchant_approved(MERCHANT));
    assert_eq!(l.core.get_merchant(MERCHANT).unwrap().status, MerchantStatus::Pending);

    l.core.update_merchant_status(ADMIN, MERCHANT, MerchantStatus::Approved).unwrap();
    assert!(l.core.is_merchant_approved(MERCHANT));
    l.core.update_merchant_status(ADMIN, MERCHANT, MerchantStatus::Suspended).unwrap();
    assert!(!l.core.is_merchant_approved(MERCHANT));
    let data = l.core.get_merchant(MERCHANT).unwrap();
    assert_eq!(data.status, MerchantStatus::Suspended);
    assert_eq!(data.merchant_info_id, profile);
}

#[test]
fn bills_need_an_approved_merchant_and_a_positive_amount() {
    let mut l = create_core_test_env();
    initialize(&mut l, ADMIN);
    let order = String::from_str(&l.env, "ORDER_001");
    assert_eq!(
        l.core.create_bill(MERCHANT, USER, 5, order.clone(), 0),
        Err(Error::MerchantNotApproved)
    );
    l.core.enroll_merchant(MERCHANT, String::from_str(&l.env, "M")).unwrap();
    assert_eq!(
        l.core.create_bill(MERCHANT, USER, 5, order.clone(), 0),
        Err(Error::MerchantNotApproved)
    );
    l.core.update_merchant_status(ADMIN, MERCHANT, MerchantStatus::Approved).unwrap();
    assert_eq!(l.core.create_bill(MERCHANT, USER, 0, order.clone(), 0), Err(Error::InvalidAmount));
    assert_eq!(l.core.create_bill(MERCHANT, USER, -5, order.clone(), 0), Err(Error::InvalidAmount));
    assert_eq!(l.core.get_bill_counter(), 1);

    assert_eq!(l.core.create_bill(MERCHANT, USER, 5, order.clone(), 77), Ok(1));
    assert_eq!(l.core.create_bill(MERCHANT, LIQUIDATOR, 6, order.clone(), 78), Ok(2));
    assert_eq!(l.core.get_bill_counter(), 3);
    assert!(l.core.has_bill(2));
    assert!(!l.core.has_bill(3));
    let bill = l.core.get_bill(2).unwrap();
    assert_eq!(bill.id, 2);
    assert_eq!(bill.user, LIQUIDATOR);
    assert_eq!(bill.principal, 6);
    assert_eq!(bill.order_id, order);
    assert_eq!(bill.created_at, 78);
    assert_eq!(bill.paid_at, 0);
}

#[test]
fn paying_is_rejected_for_unknown_paid_and_expired_bills() {
    let mut l = create_core_test_env();
    initialize(&mut l, ADMIN);
    approve_merchant(&mut l, ADMIN, MERCHANT);
    l.pool.mint(USER, COLLATERAL).unwrap();
    fund_pool(&mut l, 10_000_000, 5_000_000);
    let order = String::from_str(&l.env, "ORDER_001");
    let id = l.core.create_bill(MERCHANT, USER, 1_000_000, order, 100).unwrap();

    assert_eq!(
        l.core.pay_bill_bnpl(&l.env, &mut l.pool, &mut l.token, 9, 100),
        Err(Error::BillNotFound)
    );
    assert_eq!(
        l.core.pay_bill_bnpl(&l.env, &mut l.pool, &mut l.token, 0, 100),
        Err(Error::BillNotFound)
    );
    // one second past the issuance window
    assert_eq!(
        l.core.pay_bill_bnpl(&l.env, &mut l.pool, &mut l.token, id, 100 + DAY + 1),
        Err(Error::BillExpired)
    );
    // at the end of the window it can still be paid
    l.core.pay_bill_bnpl(&l.env, &mut l.pool, &mut l.token, id, 100 + DAY).unwrap();
    let paid = l.core.get_bill(id).unwrap();
    assert_eq!(paid.paid_at, 100 + DAY);
    assert_eq!(paid.created_at, 100);
    assert_eq!(paid.order_id, String::from_str(&l.env, "ORDER_001"));
    assert_eq!((paid.id, paid.merchant, paid.user, paid.principal), (id, MERCHANT, USER, 1_000_000));
    assert_eq!(
        l.core.pay_bill_bnpl(&l.env, &mut l.pool, &mut l.token, id, 100 + DAY),
        Err(Error::BillNotPayable)
    );
    let ids = l.core.get_user_bills(&l.env, USER);
    assert_eq!(ids.len(), 1);
    assert_eq!(ids.get(0), Some(id));
}

#[test]
fn paying_needs_collateral_and_changes_nothing_without() {
    let mut l = create_core_test_env();
    initialize(&mut l, ADMIN);
    approve_merchant(&mut l, ADMIN, MERCHANT);
    fund_pool(&mut l, 10_000_000, 5_000_000);
    // other holders' shares are worth more than the pool's assets: no yield is pending
    l.pool.mint(ADMIN, COLLATERAL).unwrap();
    // a balance of 1,111,111 allows to borrow 999,999
    l.pool.mint(USER, 1_111_111).unwrap();
    let order = String::from_str(&l.env, "ORDER_001");
    let id = l.core.create_bill(MERCHANT, USER, 1_000_000, order, 0).unwrap();

    assert_eq!(
        l.core.pay_bill_bnpl(&l.env, &mut l.pool, &mut l.token, id, 0),
        Err(Error::InsufficientCollateralForLiquidation)
    );
    assert_eq!(l.core.get_bill(id).unwrap().status, BillStatus::Created);
    assert_eq!(l.token.balance(POOL), 5_000_000);
    assert_eq!(l.pool.total_borrowed(), 0);

    l.pool.mint(USER, 2).unwrap();
    l.core.pay_bill_bnpl(&l.env, &mut l.pool, &mut l.token, id, 0).unwrap();
    assert_eq!(l.pool.total_borrowed(), 1_000_000);
    let power = l.core.get_user_borrowing_power(&l.pool, USER, 0).unwrap();
    assert_eq!(power.lp_balance, 1_111_113);
    assert_eq!(power.max_borrowing, 1_000_001);
    assert_eq!(power.current_borrowed, 1_000_000);
    assert_eq!(power.current_debt, 1_000_000);
    assert_eq!(power.available_borrowing, 1);
    assert_eq!(power.required_collateral, 1_110_000);
    assert_eq!(power.overall_health_factor, 1);
    assert_eq!(l.core.get_user_required_collateral(USER, 0), Ok(1_110_000));
}

#[test]
fn a_failed_payment_restores_pool_and_asset() {
    let mut l = create_core_test_env();
    initialize(&mut l, ADMIN);
    approve_merchant(&mut l, ADMIN, MERCHANT);
    l.pool.mint(USER, COLLATERAL).unwrap();
    // the pool holds less than the principal: the loan cannot be paid out
    fund_pool(&mut l, 10_000_000, 999_999);
    let order = String::from_str(&l.env, "ORDER_001");
    let id = l.core.create_bill(MERCHANT, USER, 1_000_000, order, 0).unwrap();

    assert_eq!(
        l.core.pay_bill_bnpl(&l.env, &mut l.pool, &mut l.token, id, 0),
        Err(Error::InternalError)
    );
    assert_eq!(l.core.get_bill(id).unwrap().status, BillStatus::Created);
    assert_eq!(l.token.balance(POOL), 999_999);
    assert_eq!(l.token.balance(MERCHANT), 0);
    assert_eq!(l.pool.total_borrowed(), 0);
    assert_eq!(l.core.get_user_bills(&l.env, USER).len(), 0);
}

#[test]
fn a_repayment_without_allowance_changes_nothing() {
    let mut l = create_core_test_env();
    initialize(&mut l, ADMIN);
    approve_merchant(&mut l, ADMIN, MERCHANT);
    l.pool.mint(USER, COLLATERAL).unwrap();
    fund_pool(&mut l, 10_000_000, 5_000_000);
    l.token.mint(USER, 2_000_000, 0).unwrap();
    let order = String::from_str(&l.env, "ORDER_001");
    let id = l.core.create_bill(MERCHANT, USER, 1_000_000, order, 0).unwrap();

    assert_eq!(
        l.core.repay_bill(&l.env, &mut l.pool, &mut l.token, id, 0),
        Err(Error::BillNotPaid)
    );
    assert_eq!(
        l.core.repay_bill(&l.env, &mut l.pool, &mut l.token, 5, 0),
        Err(Error::BillNotFound)
    );
    l.core.pay_bill_bnpl(&l.env, &mut l.pool, &mut l.token, id, 0).unwrap();
    let pool_balance = l.token.balance(POOL);

    l.token.approve(USER, CORE, 999_999, 0);
    assert_eq!(
        l.core.repay_bill(&l.env, &mut l.pool, &mut l.token, id, 0),
        Err(Error::InternalError)
    );
    assert_eq!(l.core.get_bill(id).unwrap().status, BillStatus::Paid);
    assert_eq!(l.token.balance(USER), 2_000_000);
    assert_eq!(l.token.balance(POOL), pool_balance);
    assert_eq!(l.token.allowance(USER, CORE), 999_999);
    assert_eq!(l.pool.total_borrowed(), 1_000_000);
    assert_eq!(l.core.get_user_bills(&l.env, USER).len(), 1);
}

#[test]
fn a_repayment_that_the_pool_cannot_book_changes_nothing() {
    let mut l = create_core_test_env();
    initialize(&mut l, ADMIN);
    approve_merchant(&mut l, ADMIN, MERCHANT);
    l.pool.mint(USER, COLLATERAL).unwrap();
    fund_pool(&mut l, 10_000_000, 5_000_000);
    l.token.mint(USER, 2_000_000, 0).unwrap();
    let order = String::from_str(&l.env, "ORDER_001");
    let id = l.core.create_bill(MERCHANT, USER, 1_000_000, order, 0).unwrap();
    l.core.pay_bill_bnpl(&l.env, &mut l.pool, &mut l.token, id, 0).unwrap();

    // somebody else settles the pool's whole loan book
    l.token.approve(ADMIN, POOL, 1_000_000, 0);
    assert_eq!(l.pool.repay(&mut l.token, ADMIN, 1_000_000), Ok(1_000_000));
    assert_eq!(l.pool.total_borrowed(), 0);
    let pool_balance = l.token.balance(POOL);

    // the pool has nothing to take back: the asset rejects a transfer of nothing
    l.token.approve(USER, CORE, 1_000_000, 0);
    assert_eq!(
        l.core.repay_bill(&l.env, &mut l.pool, &mut l.token, id, 0),
        Err(Error::InvalidAmount)
    );
    assert_eq!(l.core.get_bill(id).unwrap().status, BillStatus::Paid);
    assert_eq!(l.token.balance(USER), 2_000_000);
    assert_eq!(l.token.balance(CORE), 0);
    assert_eq!(l.token.balance(POOL), pool_balance);
    assert_eq!(l.token.allowance(USER, CORE), 1_000_000);
    assert_eq!(l.token.allowance(CORE, POOL), 0);
}

#[test]
fn a_late_repayment_pays_the_late_fee_counted_from_creation() {
    let mut l = create_core_test_env();
    initialize(&mut l, ADMIN);
    approve_merchant(&mut l, ADMIN, MERCHANT);
    l.pool.mint(USER, COLLATERAL).unwrap();
    fund_pool(&mut l, 10_000_000, 5_000_000);
    l.token.mint(USER, 6_000_000, 0).unwrap();
    let order = String::from_str(&l.env, "ORDER_001");
    let id = l.core.create_bill(MERCHANT, USER, 4_500_000, order, 0).unwrap();
    // paid at the end of the first day
    l.core.pay_bill_bnpl(&l.env, &mut l.pool, &mut l.token, id, DAY).unwrap();
    let treasury = l.token.balance(TREASURY);
    let insurance = l.token.balance(INSURANCE);
    let pool = l.token.balance(POOL);

    // 15 days after creation, one day past the grace period: 3698
    l.token.approve(USER, CORE, 4_500_000 + 3_698, 0);
    l.core.repay_bill(&l.env, &mut l.pool, &mut l.token, id, 15 * DAY).unwrap();

    assert_eq!(l.token.balance(USER), 6_000_000 - 4_500_000 - 3_698);
    assert_eq!(l.token.allowance(USER, CORE), 0);
    assert_eq!(l.token.balance(TREASURY), treasury + 739);
    assert_eq!(l.token.balance(INSURANCE), insurance + 369);
    assert_eq!(l.token.balance(POOL), pool + 4_500_000 + 2_588);
    assert_eq!(l.pool.total_borrowed(), 0);
    let bill = l.core.get_bill(id).unwrap();
    assert_eq!(bill.status, BillStatus::Repaid);
    assert_eq!(bill.paid_at, DAY);
    assert_eq!(l.core.get_user_bills(&l.env, USER).len(), 0);
    assert_eq!(l.core.get_user_total_debt(USER, 15 * DAY), Ok((0, 0)));
    assert_eq!(
        l.core.repay_bill(&l.env, &mut l.pool, &mut l.token, id, 15 * DAY),
        Err(Error::BillNotPaid)
    );
}

#[test]
fn liquidation_is_gated_by_time_status_and_pool_shares() {
    let mut l = create_core_test_env();
    approve_merchant_before_init(&mut l);
    l.pool.mint(USER, COLLATERAL).unwrap();
    fund_pool(&mut l, 10_000_000, 5_000_000);
    assert_eq!(
        l.core.liquidate_bill(&l.env, &mut l.pool, &mut l.token, 1, LIQUIDATOR, 0),
        Err(Error::NotInitialized)
    );
    initialize(&mut l, ADMIN);
    l.core.update_merchant_status(ADMIN, MERCHANT, MerchantStatus::Approved).unwrap();
    let order = String::from_str(&l.env, "ORDER_001");
    let id = l.core.create_bill(MERCHANT, USER, 2_000_000, order, 50).unwrap();

    assert_eq!(
        l.core.liquidate_bill(&l.env, &mut l.pool, &mut l.token, id, LIQUIDATOR, 50 + 28 * DAY),
        Err(Error::NonLpTokenHolder)
    );
    l.pool.mint(LIQUIDATOR, 1).unwrap();
    assert_eq!(
        l.core.liquidate_bill(&l.env, &mut l.pool, &mut l.token, 7, LIQUIDATOR, 50 + 28 * DAY),
        Err(Error::BillNotFound)
    );
    assert_eq!(
        l.core.liquidate_bill(&l.env, &mut l.pool, &mut l.token, id, LIQUIDATOR, 49 + 28 * DAY),
        Err(Error::GracePeriodNotExpired)
    );
    // the threshold has passed, but the bill was never paid
    assert_eq!(
        l.core.liquidate_bill(&l.env, &mut l.pool, &mut l.token, id, LIQUIDATOR, 50 + 28 * DAY),
        Err(Error::LiquidationNotPossible)
    );
    l.core.pay_bill_bnpl(&l.env, &mut l.pool, &mut l.token, id, 60).unwrap();
    assert_eq!(
        l.core.liquidate_bill(&l.env, &mut l.pool, &mut l.token, id, LIQUIDATOR, 49 + 28 * DAY),
        Err(Error::GracePeriodNotExpired)
    );
    l.core
        .liquidate_bill(&l.env, &mut l.pool, &mut l.token, id, LIQUIDATOR, 50 + 28 * DAY)
        .unwrap();
    assert_eq!(l.core.get_bill(id).unwrap().status, BillStatus::Liquidated);
    assert_eq!(
        l.core.liquidate_bill(&l.env, &mut l.pool, &mut l.token, id, LIQUIDATOR, 50 + 29 * DAY),
        Err(Error::LiquidationNotPossible)
    );
}

fn approve_merchant_before_init(l: &mut Ledgers) {
    let id = String::from_str(&l.env, "MERCHANT_001");
    l.core.enroll_merchant(MERCHANT, id).unwrap();
}

#[test]
fn a_liquidation_without_enough_collateral_changes_nothing() {
    let mut l = create_core_test_env();
    initialize(&mut l, ADMIN);
    approve_merchant(&mut l, ADMIN, MERCHANT);
    // other holders' shares are worth more than the pool's assets: no yield is pending
    l.pool.mint(ADMIN, COLLATERAL).unwrap();
    l.pool.mint(USER, 2_300_000).unwrap();
    l.pool.mint(LIQUIDATOR, 10).unwrap();
    fund_pool(&mut l, 10_000_000, 5_000_000);
    let order = String::from_str(&l.env, "ORDER_001");
    let id = l.core.create_bill(MERCHANT, USER, 2_000_000, order, 0).unwrap();
    l.core.pay_bill_bnpl(&l.env, &mut l.pool, &mut l.token, id, 0).unwrap();
    // the user moves its collateral away; nothing locks it in this test
    l.pool.transfer(USER, ADMIN, 300_000, 0).unwrap();
    let pool_balance = l.token.balance(POOL);

    // principal, late fee of 24,657 and penalty of 20,000 exceed the 2,000,000 left
    assert_eq!(
        l.core.liquidate_bill(&l.env, &mut l.pool, &mut l.token, id, LIQUIDATOR, 29 * DAY),
        Err(Error::InsufficientCollateralForLiquidation)
    );
    assert_eq!(l.core.get_bill(id).unwrap().status, BillStatus::Paid);
    assert_eq!(l.pool.balance(USER), 2_000_000);
    assert_eq!(l.token.balance(POOL), pool_balance);
    assert_eq!(l.token.balance(LIQUIDATOR), 0);
    assert_eq!(l.core.get_user_bills(&l.env, USER).len(), 1);
}

#[test]
fn open_bills_keep_their_order_when_one_is_closed() {
    let mut l = create_core_test_env();
    initialize(&mut l, ADMIN);
    approve_merchant(&mut l, ADMIN, MERCHANT);
    l.pool.mint(USER, COLLATERAL).unwrap();
    fund_pool(&mut l, 10_000_000, 5_000_000);
    l.token.mint(USER, 1_000, 0).unwrap();
    l.token.approve(USER, CORE, 1_000, 0);
    for _ in 0..4 {
        let order = String::from_str(&l.env, "ORDER");
        l.core.create_bill(MERCHANT, USER, 100, order, 0).unwrap();
    }
    for id in [3u64, 1, 4, 2] {
        l.core.pay_bill_bnpl(&l.env, &mut l.pool, &mut l.token, id, 0).unwrap();
    }
    let ids = l.core.get_user_bills(&l.env, USER);
    assert_eq!((ids.len(), ids.get(0), ids.get(1), ids.get(2), ids.get(3)), (4, Some(3), Some(1), Some(4), Some(2)));

    l.core.repay_bill(&l.env, &mut l.pool, &mut l.token, 1, 0).unwrap();
    let ids = l.core.get_user_bills(&l.env, USER);
    assert_eq!((ids.len(), ids.get(0), ids.get(1), ids.get(2)), (3, Some(3), Some(4), Some(2)));
    assert_eq!(l.core.get_user_total_debt(USER, 0), Ok((0, 300)));
    assert_eq!(l.core.get_user_bills(&l.env, MERCHANT).len(), 0);
}

#[test]
fn protocol_constants_are_reported() {
    let c = UnifiedBNPLContract::get_protocol_constants();
    assert_eq!(c.merchant_fee_rate, 150_000);
    assert_eq!(c.late_interest_apr, 3_000_000);
    assert_eq!(c.max_ltv, 9_000_000);
    assert_eq!(c.collateral_ratio, 11_100_000);
    assert_eq!(c.grace_period_days, 14);
    assert_eq!(c.fee_to_lp_ratio, 7_000_000);
    assert_eq!(c.fee_to_treasury_ratio, 2_000_000);
    assert_eq!(c.fee_to_insurance_ratio, 1_000_000);
    assert_eq!(c.fee_to_lp_ratio + c.fee_to_treasury_ratio + c.fee_to_insurance_ratio, SCALE_7);
}

#[test]
fn error_codes_are_stable() {
    assert_eq!(Error::AlreadyInitialized.code(), 1);
    assert_eq!(Error::NotInitialized.code(), 2);
    assert_eq!(Error::NotAdmin.code(), 11);
    assert_eq!(Error::AdminAlreadySet.code(), 12);
    assert_eq!(Error::CannotRemoveItself.code(), 13);
    assert_eq!(Error::BillNotFound.code(), 20);
    assert_eq!(Error::BillNotPayable.code(), 21);
    assert_eq!(Error::BillNotPaid.code(), 22);
    assert_eq!(Error::BillExpired.code(), 23);
    assert_eq!(Error::LiquidationNotPossible.code(), 24);
    assert_eq!(Error::InvalidAmount.code(), 25);
    assert_eq!(Error::InvalidInstallmentNumber.code(), 41);
    assert_eq!(Error::InsufficientCollateralForLiquidation.code(), 42);
    assert_eq!(Error::GracePeriodNotExpired.code(), 43);
    assert_eq!(Error::NonLpTokenHolder.code(), 44);
    assert_eq!(Error::InvalidInput.code(), 100);
    assert_eq!(Error::InternalError.code(), 101);
    assert_eq!(Error::MerchantAlreadyEnrolled.code(), 110);
    assert_eq!(Error::MerchantNotFound.code(), 111);
    assert_eq!(Error::MerchantNotApproved.code(), 112);
}
