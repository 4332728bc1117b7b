use lp_pool::errors::Errors;
use lp_pool::pool::LpPool;

#[test]
fn test_lp_pool_initialization() {
    let pool = LpPool::init(1_500_000, 1_000, 90_000, 90_000_000).unwrap();
    assert_eq!(pool.price, 1_500_000);
    assert_eq!(pool.token_amount_reserve, 0);
    assert_eq!(pool.st_token_amount, 0);
    assert_eq!(pool.lp_token_amount, 0);
    assert_eq!(pool.liquidity_target, 90_000_000);
    assert_eq!(pool.min_fee, 1_000);
    assert_eq!(pool.max_fee, 90_000);
}

#[test]
fn test_add_liquidity_1() {
    let mut pool = LpPool::init(1_500_000, 1_000, 90_000, 90_000_000).unwrap();
    let minted_lp = pool.add_liquidity(100_000_000).unwrap();
    assert_eq!(minted_lp, 100_000_000);
    assert_eq!(pool.token_amount_reserve, 100_000_000);
    assert_eq!(pool.lp_token_amount, 100_000_000);
}

#[test]
fn test_swap_1() {
    let mut pool = LpPool::init(1_500_000, 1_000, 90_000, 90_000_000).unwrap();
    pool.add_liquidity(100_000_000).unwrap();
    let received_token = pool.swap(6_000_000).unwrap();

    assert_eq!(received_token, 8_991_000);
    assert_eq!(pool.price, 1_500_000);
    assert_eq!(pool.token_amount_reserve, 91_009_000);
    assert_eq!(pool.st_token_amount, 6_000_000);
    assert_eq!(pool.lp_token_amount, 100_000_000);
    assert_eq!(pool.liquidity_target, 90_000_000);
    assert_eq!(pool.min_fee, 1_000);
    assert_eq!(pool.max_fee, 90_000);
}

#[test]
fn test_add_liquidity_2() {
    let mut pool = LpPool::init(1_500_000, 1_000, 90_000, 90_000_000).unwrap();
    pool.add_liquidity(100_000_000).unwrap();
    pool.swap(6_000_000).unwrap();
    let minted_lp = pool.add_liquidity(10_000_000).unwrap();

    assert_eq!(minted_lp, 9_999_100);
    assert_eq!(pool.lp_token_amount, 109_999_100);
    assert_eq!(pool.price, 1_500_000);
    assert_eq!(pool.token_amount_reserve, 101_009_000);
    assert_eq!(pool.st_token_amount, 6_000_000);
    assert_eq!(pool.lp_token_amount, 109_999_100);
    assert_eq!(pool.liquidity_target, 90_000_000);
    assert_eq!(pool.min_fee, 1_000);
    assert_eq!(pool.max_fee, 90_000);
}

#[test]
fn test_swap_2() {
    let mut pool = LpPool::init(1_500_000, 1_000, 90_000, 90_000_000).unwrap();
    pool.add_liquidity(100_000_000).unwrap();
    pool.swap(6_000_000).unwrap();
    pool.add_liquidity(10_000_000).unwrap();
    let received_token = pool.swap(30_000_000).unwrap();

    assert_eq!(received_token, 43_442_370);
    assert_eq!(pool.lp_token_amount, 109_999_100);
    assert_eq!(pool.price, 1_500_000);
    assert_eq!(pool.token_amount_reserve, 57_566_630);
    assert_eq!(pool.st_token_amount, 36_000_000);
    assert_eq!(pool.lp_token_amount, 109_999_100);
    assert_eq!(pool.liquidity_target, 90_000_000);
    assert_eq!(pool.min_fee, 1_000);
    assert_eq!(pool.max_fee, 90_000);
}

#[test]
fn test_remove_liquidity() {
    let mut pool = LpPool::init(1_500_000, 1_000, 90_000, 90_000_000).unwrap();
    pool.add_liquidity(100_000_000).unwrap();
    pool.swap(6_000_000).unwrap();
    pool.add_liquidity(10_000_000).unwrap();
    pool.swap(30_000_000).unwrap();

    let (token, staked_token) = pool.remove_liquidity(109_999_100).unwrap();
    assert_eq!(staked_token, 36_000_000);
    assert_eq!(token, 57_566_630);
    assert_eq!(pool.price, 1_500_000);
    assert_eq!(pool.token_amount_reserve, 0);
    assert_eq!(pool.st_token_amount, 0);
    assert_eq!(pool.lp_token_amount, 0);
    assert_eq!(pool.liquidity_target, 90_000_000);
    assert_eq!(pool.min_fee, 1_000);
    assert_eq!(pool.max_fee, 90_000);
}

#[test]
fn test_it_doesnt_allow_to_remove_too_much_liquidity() {
    let mut pool = LpPool::init(1_500_000, 1_000, 90_000, 90_000_000).unwrap();
    pool.add_liquidity(100_000_000).unwrap();
    pool.swap(6_000_000).unwrap();
    pool.add_liquidity(10_000_000).unwrap();
    pool.swap(30_000_000).unwrap();

    let result = pool.remove_liquidity(109_999_101);

    match result {
        Err(Errors::InvalidLpTokenToRemove) => {
            assert!(true, "Error occurred as expected: InvalidLpTokenToRemove");
        }
        Err(e) => {
            panic!("Unexpected error: {:?}", e);
        }
        Ok((token, staked_token)) => {
            panic!(
                "Expected an error but received a successful result: token: {:?}, staked_token: {:?}",
                token, staked_token
            );
        }
    }
}

#[test]
fn test_pool_initialization_fail_of_too_small_difference_of_fee() {
    match LpPool::init(1_500_000, 1_000, 1_000, 90_000_000) {
        Err(Errors::InvalidFee) => {
            assert!(true, "Error occurred as expected: InvalidFee");
        }
        Err(e) => {
            panic!("Unexpected error: {:?}", e);
        }
        Ok(_lp_pool) => {
            panic!("Expected an error 'InvalidFee', but received a successful init");
        }
    }
}

#[test]
fn test_pool_initialization_doesnt_allow_of_too_small_price() {
    match LpPool::init(0, 1_000, 90_000, 90_000_000) {
        Err(Errors::InvalidPrice) => {
            assert!(true, "Error occurred as expected: InvalidPrice");
        }
        Err(e) => {
            panic!("Unexpected error: {:?}", e);
        }
        Ok(_lp_pool) => {
            panic!("Expected an error 'InvalidPrice', but received a successful init");
        }
    }
}

#[test]
fn test_pool_initialization_doesnt_allow_fail_of_too_small_target() {
    match LpPool::init(1_500_000, 1_000, 90_000, 0) {
        Err(Errors::InvalidLiquidityTarget) => {
            assert!(true, "Error occurred as expected: InvalidLiquidityTarget");
        }
        Err(e) => {
            panic!("Unexpected error: {:?}", e);
        }
        Ok(_lp_pool) => {
            panic!("Expected an error 'InvalidLiquidityTarget', but received a successful init");
        }
    }
}

#[test]
fn test_doesnt_allow_add_liquidity_of_zero() {
    let mut pool = LpPool::init(1_500_000, 1_000, 90_000, 90_000_000).unwrap();

    match pool.add_liquidity(0) {
        Err(Errors::InvalidDeposit) => {
            assert!(true, "Error occurred as expected: InvalidDeposit");
        }
        Err(e) => {
            panic!("Unexpected error: {:?}", e);
        }
        Ok(_lp_pool) => {
            panic!("Expected an error 'InvalidDeposit'");
        }
    }
}

#[test]
fn test_not_allow_swap_zero() {
    let mut pool = LpPool::init(1_500_000, 1_000, 90_000, 90_000_000).unwrap();

    match pool.swap(0) {
        Err(Errors::InvalidSwapAmount) => {
            assert!(true, "Error occurred as expected: InvalidSwapAmount");
        }
        Err(e) => {
            panic!("Unexpected error: {:?}", e);
        }
        Ok(_lp_pool) => {
            panic!("Expected an error 'InvalidSwapAmount'");
        }
    }
}

#[test]
fn test_swap_not_enough_empty() {
    let mut pool = LpPool::init(1_500_000, 1_000, 90_000, 90_000_000).unwrap();

    match pool.swap(1) {
        Err(Errors::ToBigSwap(0)) => {
            assert!(true, "Error occurred as expected: ToBigSwap");
        }
        Err(e) => {
            panic!("Unexpected error: {:?}", e);
        }
        Ok(_lp_pool) => {
            panic!("Expected an error 'ToBigSwap'");
        }
    }
}
