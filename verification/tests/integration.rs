use bnpl_ledger::fees::{
    FEE_TO_LP_RATIO, LIQUIDATION_PENALTY, MERCHANT_FEE_RATE, SCALE_7, SECONDS_PER_DAY,
};
use bnpl_ledger::collateral;
use bnpl_ledger::{
    BillStatus, Error, LpToken, MerchantStatus, PoolError, TokenMetadata, UnifiedBNPLContract,
    UsdcToken,
};
use soroban_sdk::{Env, String};

const ADMIN: u64 = 1;
const TREASURY: u64 = 2;
const INSURANCE: u64 = 3;
const USDC: u64 = 4;
const POOL: u64 = 5;
const CORE: u64 = 6;
const TOKEN_ADMIN: u64 = 7;
const MERCHANT: u64 = 10;
const USER: u64 = 11;
const LP_PROVIDER: u64 = 12;
const LIQUIDATOR: u64 = 13;

fn create_test_env() -> (Env, UnifiedBNPLContract, LpToken, UsdcToken) {
    let env = Env::default();

    let mut token = UsdcToken::new();
    token
        .initialize(
            TOKEN_ADMIN,
            String::from_str(&env, "USD Coin"),
            String::from_str(&env, "USDC"),
            7,
            1_000_000_000_000_000,
        )
        .unwrap();

    let mut pool = LpToken::new(&env, POOL);
    let metadata = TokenMetadata {
        name: String::from_str(&env, "LP Token"),
        symbol: String::from_str(&env, "LP"),
        decimal: 9,
    };
    pool.initialize(TOKEN_ADMIN, USDC, metadata).unwrap();

    let core = UnifiedBNPLContract::new(CORE);
    pool.set_bnpl_core(CORE).unwrap();

    (env, core, pool, token)
}

#[test]
fn lib_test_initialization() {
    let (_env, mut core, _pool, _token) = create_test_env();

    core.initialize(POOL, USDC, ADMIN, TREASURY, INSURANCE).unwrap();

    let config = core.get_config().unwrap();
    assert_eq!(config.liquidity_pool, POOL);
    assert_eq!(config.usdc_token, USDC);
    assert_eq!(config.treasury, TREASURY);
    assert_eq!(config.insurance_fund, INSURANCE);
    assert_eq!(config.admin, ADMIN);
}

#[test]
#[should_panic(expected = "Already initialized")]
fn lib_test_double_initialization() {
    let (_env, mut core, _pool, _token) = create_test_env();

    core.initialize(POOL, USDC, ADMIN, TREASURY, INSURANCE).unwrap();

    let again = core.initialize(POOL, USDC, ADMIN, TREASURY, INSURANCE);
    assert_eq!(again, Err(Error::AlreadyInitialized));
    panic!("Already initialized");
}

#[test]
fn test_basic_bnpl_scenario() {
    let (env, mut core, mut pool, mut token) = create_test_env();

    core.initialize(POOL, USDC, ADMIN, TREASURY, INSURANCE).unwrap();

    token.mint(ADMIN, 50_000_000_000, 0).unwrap();
    token.mint(LP_PROVIDER, 10_000_000_000, 0).unwrap();
    token.mint(USER, 5_000_000_000, 0).unwrap();

    token.approve(LP_PROVIDER, POOL, 10_000_000_000, 200);
    pool.deposit(&mut token, LP_PROVIDER, 10_000_000_000).unwrap();

    token.approve(USER, POOL, 2_000_000_000, 200);
    pool.deposit(&mut token, USER, 2_000_000_000).unwrap();

    assert_eq!(pool.balance(LP_PROVIDER), 10_000_000_000);
    assert_eq!(pool.balance(USER), 2_000_000_000);

    let merchant_info_id = String::from_str(&env, "MERCHANT_001");
    core.enroll_merchant(MERCHANT, merchant_info_id).unwrap();
    core.update_merchant_status(ADMIN, MERCHANT, MerchantStatus::Approved).unwrap();

    let merchant_data = core.get_merchant(MERCHANT).unwrap();
    assert_eq!(merchant_data.status, MerchantStatus::Approved);

    let purchase_amount = 1_000_000_000;
    let order_id = String::from_str(&env, "ORDER_001");
    let bill_id = core.create_bill(MERCHANT, USER, purchase_amount, order_id, 0).unwrap();

    let bill = core.get_bill(bill_id).unwrap();
    assert_eq!(bill.merchant, MERCHANT);
    assert_eq!(bill.user, USER);
    assert_eq!(bill.principal, purchase_amount);
    assert_eq!(bill.status, BillStatus::Created);

    core.pay_bill_bnpl(&env, &mut pool, &mut token, bill_id, 0).unwrap();

    let bill = core.get_bill(bill_id).unwrap();
    assert_eq!(bill.status, BillStatus::Paid);

    let merchant_fee = (purchase_amount * MERCHANT_FEE_RATE) / SCALE_7;
    let merchant_payment = purchase_amount - merchant_fee;
    assert_eq!(token.balance(MERCHANT), merchant_payment);

    let _lp_fee = (merchant_fee * FEE_TO_LP_RATIO) / SCALE_7;
    let treasury_fee = (merchant_fee * 2_000_000) / SCALE_7;
    let insurance_fee = (merchant_fee * 1_000_000) / SCALE_7;

    assert_eq!(token.balance(TREASURY), treasury_fee);
    assert_eq!(token.balance(INSURANCE), insurance_fee);

    token.approve(USER, CORE, purchase_amount, 200);
    core.repay_bill(&env, &mut pool, &mut token, bill_id, 0).unwrap();

    let bill = core.get_bill(bill_id).unwrap();
    assert_eq!(bill.status, BillStatus::Repaid);

    assert_eq!(token.balance(USER), 5_000_000_000 - 2_000_000_000 - purchase_amount);

    let lp_balance = pool.balance(LP_PROVIDER);
    collateral::withdraw(&core, &mut pool, &mut token, LP_PROVIDER, lp_balance, 0).unwrap();

    let final_balance = token.balance(LP_PROVIDER);
    assert!(final_balance >= 10_000_000_000);
    // the provider's ten twelfths of the 10,500,000 that went to the pool
    assert_eq!(final_balance, 10_008_750_000);
}

#[test]
fn test_liquidation_scenario() {
    let (env, mut core, mut pool, mut token) = create_test_env();

    core.initialize(POOL, USDC, ADMIN, TREASURY, INSURANCE).unwrap();

    token.mint(ADMIN, 50_000_000_000, 0).unwrap();
    token.mint(LP_PROVIDER, 10_000_000_000, 0).unwrap();
    token.mint(USER, 5_000_000_000, 0).unwrap();
    token.mint(LIQUIDATOR, 5_000_000_000, 0).unwrap();

    token.approve(LP_PROVIDER, POOL, 10_000_000_000, 200);
    pool.deposit(&mut token, LP_PROVIDER, 10_000_000_000).unwrap();

    token.approve(USER, POOL, 3_000_000_000, 200);
    pool.deposit(&mut token, USER, 3_000_000_000).unwrap();

    token.approve(LIQUIDATOR, POOL, 2_000_000_000, 200);
    pool.deposit(&mut token, LIQUIDATOR, 2_000_000_000).unwrap();

    let merchant_info_id = String::from_str(&env, "MERCHANT_002");
    core.enroll_merchant(MERCHANT, merchant_info_id).unwrap();
    core.update_merchant_status(ADMIN, MERCHANT, MerchantStatus::Approved).unwrap();

    let purchase_amount = 2_000_000_000;
    let order_id = String::from_str(&env, "ORDER_002");
    let bill_id = core.create_bill(MERCHANT, USER, purchase_amount, order_id, 0).unwrap();

    core.pay_bill_bnpl(&env, &mut pool, &mut token, bill_id, 0).unwrap();

    let bill = core.get_bill(bill_id).unwrap();
    assert_eq!(bill.status, BillStatus::Paid);

    let now = 29 * SECONDS_PER_DAY;

    let liquidator_initial_balance = token.balance(LIQUIDATOR);
    let user_lp_balance_before = pool.balance(USER);

    core.liquidate_bill(&env, &mut pool, &mut token, bill_id, LIQUIDATOR, now).unwrap();

    let bill = core.get_bill(bill_id).unwrap();
    assert_eq!(bill.status, BillStatus::Liquidated);

    let user_lp_balance_after = pool.balance(USER);
    assert!(user_lp_balance_after < user_lp_balance_before);

    let liquidation_fee = purchase_amount * LIQUIDATION_PENALTY / SCALE_7;
    let liquidator_reward = liquidation_fee / 2;
    let liquidator_final_balance = token.balance(LIQUIDATOR);

    assert_eq!(liquidator_final_balance, liquidator_initial_balance + liquidator_reward);

    assert!(token.balance(TREASURY) > 0);
    assert!(token.balance(INSURANCE) > 0);
}

#[test]
fn payment_of_a_million_splits_the_fee_70_20_10() {
    let (env, mut core, mut pool, mut token) = create_test_env();
    core.initialize(POOL, USDC, ADMIN, TREASURY, INSURANCE).unwrap();
    core.enroll_merchant(MERCHANT, String::from_str(&env, "M")).unwrap();
    core.update_merchant_status(ADMIN, MERCHANT, MerchantStatus::Approved).unwrap();

    // the pool holds 5,000,000, all of it the user's deposit
    token.mint(USER, 5_000_000, 0).unwrap();
    pool.deposit(&mut token, USER, 5_000_000).unwrap();
    assert_eq!(token.balance(POOL), 5_000_000);

    let id = core
        .create_bill(MERCHANT, USER, 1_000_000, String::from_str(&env, "ORDER"), 0)
        .unwrap();
    core.pay_bill_bnpl(&env, &mut pool, &mut token, id, 0).unwrap();

    assert_eq!(token.balance(MERCHANT), 985_000);
    assert_eq!(token.balance(POOL), 5_000_000 - 1_000_000 + 10_500);
    assert_eq!(token.balance(TREASURY), 3_000);
    assert_eq!(token.balance(INSURANCE), 1_500);
    assert_eq!(token.balance(CORE), 0);
    assert_eq!(pool.total_borrowed(), 1_000_000);
    // the pool's part is yield: 5,010,500 of assets on 5,000,000 shares
    assert_eq!(pool.exchange_rate(), 1_002_100_000);
    assert_eq!(pool.balance(USER), 5_010_500);
    assert_eq!(token.total_supply(), 5_000_000);
}

#[test]
fn liquidation_of_two_million_after_29_days() {
    let (env, mut core, mut pool, mut token) = create_test_env();
    core.initialize(POOL, USDC, ADMIN, TREASURY, INSURANCE).unwrap();
    core.enroll_merchant(MERCHANT, String::from_str(&env, "M")).unwrap();
    core.update_merchant_status(ADMIN, MERCHANT, MerchantStatus::Approved).unwrap();

    token.mint(USER, 4_000_000, 0).unwrap();
    token.mint(LIQUIDATOR, 1_000_000, 0).unwrap();
    pool.deposit(&mut token, USER, 4_000_000).unwrap();
    pool.deposit(&mut token, LIQUIDATOR, 1_000_000).unwrap();

    let id = core
        .create_bill(MERCHANT, USER, 2_000_000, String::from_str(&env, "ORDER"), 0)
        .unwrap();
    core.pay_bill_bnpl(&env, &mut pool, &mut token, id, 0).unwrap();
    // merchant fee 30,000: 21,000 to the pool, 6,000 and 3,000 to the funds
    assert_eq!(token.balance(TREASURY), 6_000);
    assert_eq!(token.balance(INSURANCE), 3_000);
    assert_eq!(pool.exchange_rate(), 1_004_200_000);
    let pool_before = token.balance(POOL);
    let user_before = pool.balance(USER);
    assert_eq!(user_before, 4_016_800);

    let burned =
        core.liquidate_bill(&env, &mut pool, &mut token, id, LIQUIDATOR, 29 * SECONDS_PER_DAY);

    // penalty 1% of 2,000,000; late fee for 15 days at 30% a year
    let penalty = 20_000;
    let late_fee = 2_000_000i128 * 3_000_000 * 15 / (365 * 10_000_000);
    assert_eq!(late_fee, 24_657);
    assert_eq!(burned, Ok(2_000_000 + late_fee + penalty));
    assert_eq!(token.balance(LIQUIDATOR), penalty / 2);
    // the other half and the late fee, 34,657, are split 70/20/10
    assert_eq!(token.balance(TREASURY), 6_000 + 6_931);
    assert_eq!(token.balance(INSURANCE), 3_000 + 3_465);
    assert_eq!(token.balance(POOL), pool_before - (late_fee + penalty) + 24_259);
    assert_eq!(token.balance(CORE), 2);
    assert_eq!(pool.total_borrowed(), 0);
    assert_eq!(core.get_bill(id).unwrap().status, BillStatus::Liquidated);
    assert_eq!(core.get_user_total_debt(USER, 29 * SECONDS_PER_DAY), Ok((0, 0)));
    // 2,044,657 at index 1.0042 are 2,036,105 shares of the user's 4,000,000
    let shares_left: u128 = 4_000_000 - 2_036_105;
    assert_eq!(pool.balance(USER) as u128, shares_left * pool.exchange_rate() / 1_000_000_000);
    assert!(pool.exchange_rate() >= 1_004_200_000);
}

#[test]
fn collateral_is_locked_while_a_bill_is_open() {
    let (env, mut core, mut pool, mut token) = create_test_env();
    core.initialize(POOL, USDC, ADMIN, TREASURY, INSURANCE).unwrap();
    core.enroll_merchant(MERCHANT, String::from_str(&env, "M")).unwrap();
    core.update_merchant_status(ADMIN, MERCHANT, MerchantStatus::Approved).unwrap();
    token.mint(USER, 3_000_000, 0).unwrap();
    token.mint(LP_PROVIDER, 100_000_000, 0).unwrap();
    pool.deposit(&mut token, LP_PROVIDER, 100_000_000).unwrap();
    pool.deposit(&mut token, USER, 2_000_000).unwrap();

    let id = core
        .create_bill(MERCHANT, USER, 1_000_000, String::from_str(&env, "ORDER"), 0)
        .unwrap();
    core.pay_bill_bnpl(&env, &mut pool, &mut token, id, 0).unwrap();

    assert_eq!(collateral::required_collateral(&core, &pool, USER, 0), Ok(1_110_000));
    let balance = pool.balance(USER);
    assert_eq!(collateral::get_locked_balance(&core, &pool, USER, 0), Ok(1_110_000));
    assert_eq!(collateral::available_balance(&core, &pool, USER, 0), Ok(balance - 1_110_000));
    assert_eq!(
        collateral::get_balance_info(&core, &pool, USER, 0),
        Ok((balance, 1_110_000, balance - 1_110_000))
    );
    assert_eq!(
        collateral::withdraw(&core, &mut pool, &mut token, USER, balance - 1_110_000 + 1, 0),
        Err(PoolError::InsufficientAvailableBalance)
    );
    assert_eq!(
        collateral::transfer(&core, &mut pool, USER, LP_PROVIDER, balance - 1_110_000 + 1, 0),
        Err(PoolError::InsufficientAvailableBalance)
    );
    assert_eq!(
        collateral::burn(&core, &mut pool, USER, balance - 1_110_000 + 1, 0),
        Err(PoolError::InsufficientAvailableBalance)
    );
    pool.approve(USER, LIQUIDATOR, 10_000_000, 0);
    assert_eq!(
        collateral::transfer_from(
            &core,
            &mut pool,
            LIQUIDATOR,
            USER,
            LP_PROVIDER,
            balance - 1_110_000 + 1,
            0
        ),
        Err(PoolError::InsufficientAvailableBalance)
    );
    assert_eq!(
        collateral::burn_from(&core, &mut pool, LIQUIDATOR, USER, balance - 1_110_000 + 1, 0),
        Err(PoolError::InsufficientAvailableBalance)
    );
    assert_eq!(pool.balance(USER), balance);
    assert_eq!(pool.allowance(USER, LIQUIDATOR), 10_000_000);

    // what is not locked can be handed on, burned and withdrawn
    collateral::transfer(&core, &mut pool, USER, MERCHANT, 1_000, 0).unwrap();
    collateral::transfer_from(&core, &mut pool, LIQUIDATOR, USER, MERCHANT, 1_000, 0).unwrap();
    collateral::burn(&core, &mut pool, USER, 1_000, 0).unwrap();
    collateral::burn_from(&core, &mut pool, LIQUIDATOR, USER, 1_000, 0).unwrap();
    // above an index of one, 1,000 converts to 999 whole shares
    assert_eq!(pool.balance(MERCHANT), 1_998);
    assert_eq!(pool.allowance(USER, LIQUIDATOR), 10_000_000 - 2_000);
    let available = collateral::available_balance(&core, &pool, USER, 0).unwrap();
    assert!(available >= balance - 1_110_000 - 4_000);
    assert_eq!(collateral::withdraw(&core, &mut pool, &mut token, USER, available, 0), Ok(available));
    assert!(collateral::available_balance(&core, &pool, USER, 0).unwrap() <= 1);

    // once the bill is repaid nothing is locked
    token.approve(USER, CORE, 1_000_000, 0);
    core.repay_bill(&env, &mut pool, &mut token, id, 0).unwrap();
    assert_eq!(collateral::get_locked_balance(&core, &pool, USER, 0), Ok(0));
    let rest = pool.balance(USER);
    assert_eq!(collateral::available_balance(&core, &pool, USER, 0), Ok(rest));
    collateral::withdraw(&core, &mut pool, &mut token, USER, rest, 0).unwrap();
    assert!(pool.balance(USER) <= 1);
}

#[test]
fn nothing_is_locked_while_the_pool_has_no_credit_ledger() {
    let env = Env::default();
    let mut token = UsdcToken::new();
    token
        .initialize(
            TOKEN_ADMIN,
            String::from_str(&env, "USD Coin"),
            String::from_str(&env, "USDC"),
            7,
            1_000_000_000_000_000,
        )
        .unwrap();
    let mut pool = LpToken::new(&env, POOL);
    let metadata = TokenMetadata {
        name: String::from_str(&env, "LP Token"),
        symbol: String::from_str(&env, "LP"),
        decimal: 9,
    };
    pool.initialize(TOKEN_ADMIN, USDC, metadata).unwrap();
    let core = UnifiedBNPLContract::new(CORE);
    pool.mint(USER, 1_000).unwrap();

    assert_eq!(collateral::required_collateral(&core, &pool, USER, 0), Ok(0));
    assert_eq!(collateral::get_locked_balance(&core, &pool, USER, 0), Ok(0));
    assert_eq!(collateral::available_balance(&core, &pool, USER, 0), Ok(1_000));
    assert_eq!(collateral::get_balance_info(&core, &pool, USER, 0), Ok((1_000, 0, 1_000)));
    collateral::transfer(&core, &mut pool, USER, MERCHANT, 1_000, 0).unwrap();
    assert_eq!(pool.balance(MERCHANT), 1_000);
}
