use erc20::{Address, ERC20Token, Event, TokenError, U256};

fn addr(b: u8) -> Address {
    Address::from_bytes([b; 20])
}

fn amt(x: u64) -> U256 {
    U256::from_u64(x)
}

fn transfer_event(from: Address, to: Address, value: u64) -> Event {
    Event::Transfer { from, to, value: amt(value) }
}

fn approval_event(owner: Address, spender: Address, value: u64) -> Event {
    Event::Approval { owner, spender, value: amt(value) }
}

/// Scenario 1: `A` deploys with 1000 and sends 300 to `B`.
fn deployed() -> ERC20Token {
    let mut t = ERC20Token::new();
    t.init(addr(1), "Tok".to_string(), "TK".to_string(), 18, amt(1000)).unwrap();
    assert_eq!(t.transfer(addr(1), addr(2), amt(300)), Ok(true));
    t
}

/// Scenario 2: then `A` approves `C` for 200 and `C` moves 150 from `A` to `B`.
fn delegated() -> ERC20Token {
    let mut t = deployed();
    assert!(t.approve(addr(1), addr(3), amt(200)));
    assert_eq!(t.transfer_from(addr(3), addr(1), addr(2), amt(150)), Ok(true));
    t
}

fn snapshot(t: &ERC20Token) -> (Vec<U256>, Vec<U256>, U256, usize) {
    let accounts = [addr(0), addr(1), addr(2), addr(3)];
    let balances = accounts.iter().map(|a| t.balance_of(*a)).collect();
    let mut allowances = Vec::new();
    for o in accounts.iter() {
        for s in accounts.iter() {
            allowances.push(t.allowance(*o, *s));
        }
    }
    (balances, allowances, t.total_supply(), t.events().len())
}

#[test]
fn test_init() {
    let mut contract = ERC20Token::default();
    let initial_supply = amt(1000000);

    contract
        .init(addr(1), "Test Token".to_string(), "TEST".to_string(), 18, initial_supply)
        .unwrap();

    assert_eq!(contract.name(), "Test Token");
    assert_eq!(contract.symbol(), "TEST");
    assert_eq!(contract.decimals(), 18);
    assert_eq!(contract.total_supply(), initial_supply);
}

#[test]
fn test_transfer() {
    let mut contract = ERC20Token::default();
    let from = Address::from_bytes([1u8; 20]);
    let to = Address::from_bytes([2u8; 20]);
    let amount = amt(100);

    contract.mint(from, amt(500)).unwrap();

    contract.transfer(from, to, amount).unwrap();

    assert_eq!(contract.balance_of(from), amt(400));
    assert_eq!(contract.balance_of(to), amount);
}

#[test]
#[should_panic(expected = "Insufficient balance")]
fn test_transfer_insufficient_balance() {
    let mut contract = ERC20Token::default();
    let from = Address::from_bytes([1u8; 20]);
    let to = Address::from_bytes([2u8; 20]);

    contract.mint(from, amt(50)).unwrap();
    if let Err(e) = contract.transfer(from, to, amt(100)) {
        panic!("{}", e.message());
    }
}

#[test]
fn test_allowance() {
    let mut contract = ERC20Token::default();
    let owner = Address::from_bytes([1u8; 20]);
    let spender = Address::from_bytes([2u8; 20]);
    let amount = amt(100);

    contract.approve(owner, spender, amount);

    assert_eq!(contract.allowance(owner, spender), amount);
}

#[test]
fn deploy_and_initial_transfer() {
    let t = deployed();
    assert_eq!(t.balance_of(addr(1)), amt(700));
    assert_eq!(t.balance_of(addr(2)), amt(300));
    assert_eq!(t.total_supply(), amt(1000));
    assert_eq!(
        t.events(),
        &vec![transfer_event(Address::zero(), addr(1), 1000), transfer_event(addr(1), addr(2), 300)]
    );
}

#[test]
fn approve_and_transfer_from() {
    let t = delegated();
    assert_eq!(t.allowance(addr(1), addr(3)), amt(50));
    assert_eq!(t.balance_of(addr(1)), amt(550));
    assert_eq!(t.balance_of(addr(2)), amt(450));
    assert_eq!(
        t.events()[2..].to_vec(),
        vec![
            approval_event(addr(1), addr(3), 200),
            approval_event(addr(1), addr(3), 50),
            transfer_event(addr(1), addr(2), 150),
        ]
    );
}

#[test]
fn insufficient_allowance_reverts() {
    let mut t = delegated();
    let before = snapshot(&t);
    let r = t.transfer_from(addr(3), addr(1), addr(2), amt(100));
    assert_eq!(r, Err(TokenError::InsufficientAllowance));
    assert_eq!(r.unwrap_err().message(), "Insufficient allowance");
    assert_eq!(snapshot(&t), before);
}

#[test]
fn insufficient_balance_reverts() {
    let mut t = delegated();
    assert_eq!(t.balance_of(addr(2)), amt(450));
    let before = snapshot(&t);
    let r = t.transfer(addr(2), addr(3), amt(1000));
    assert_eq!(r, Err(TokenError::InsufficientBalance));
    assert_eq!(r.unwrap_err().message(), "Insufficient balance");
    assert_eq!(snapshot(&t), before);
}

#[test]
fn insufficient_balance_with_enough_allowance_reverts() {
    let mut t = delegated();
    assert!(t.approve(addr(2), addr(3), amt(1000)));
    let before = snapshot(&t);
    let r = t.transfer_from(addr(3), addr(2), addr(1), amt(451));
    assert_eq!(r, Err(TokenError::InsufficientBalance));
    assert_eq!(snapshot(&t), before);
}

#[test]
fn mint_credits_and_grows_supply() {
    let mut t = delegated();
    assert_eq!(t.mint(addr(3), amt(500)), Ok(true));
    assert_eq!(t.balance_of(addr(3)), amt(500));
    assert_eq!(t.total_supply(), amt(1500));
    assert_eq!(t.events().last(), Some(&transfer_event(Address::zero(), addr(3), 500)));
}

#[test]
fn self_transfer_keeps_balance() {
    let mut t = delegated();
    assert_eq!(t.balance_of(addr(1)), amt(550));
    assert_eq!(t.transfer(addr(1), addr(1), amt(100)), Ok(true));
    assert_eq!(t.balance_of(addr(1)), amt(550));
    assert_eq!(t.events().last(), Some(&transfer_event(addr(1), addr(1), 100)));
}

#[test]
fn supply_equals_sum_of_balances_after_each_operation() {
    let mut t = ERC20Token::new();
    let accounts = [addr(0), addr(1), addr(2), addr(3)];
    let check = |t: &ERC20Token| {
        let sum: u64 = accounts.iter().map(|a| t.balance_of(*a).limbs[0]).sum();
        assert_eq!(t.total_supply(), amt(sum));
        for a in accounts.iter() {
            assert!(t.balance_of(*a).limbs[0] <= t.total_supply().limbs[0]);
        }
    };
    check(&t);
    t.init(addr(1), "Tok".to_string(), "TK".to_string(), 18, amt(1000)).unwrap();
    check(&t);
    t.transfer(addr(1), addr(2), amt(300)).unwrap();
    check(&t);
    t.approve(addr(1), addr(3), amt(200));
    check(&t);
    t.transfer_from(addr(3), addr(1), addr(0), amt(150)).unwrap();
    check(&t);
    t.mint(addr(3), amt(42)).unwrap();
    check(&t);
    assert!(t.transfer(addr(3), addr(2), amt(43)).is_err());
    check(&t);
}

#[test]
fn approve_overwrites_previous_allowance() {
    let mut t = deployed();
    assert!(t.approve(addr(1), addr(3), amt(200)));
    assert!(t.approve(addr(1), addr(3), amt(7)));
    assert_eq!(t.allowance(addr(1), addr(3)), amt(7));
    assert_eq!(t.allowance(addr(3), addr(1)), amt(0));
    assert_eq!(t.events().last(), Some(&approval_event(addr(1), addr(3), 7)));
}

#[test]
fn zero_transfers_keep_balances_and_log() {
    let mut t = deployed();
    let n = t.events().len();
    assert_eq!(t.transfer(addr(2), addr(3), amt(0)), Ok(true));
    assert_eq!(t.transfer_from(addr(3), addr(1), addr(2), amt(0)), Ok(true));
    assert_eq!(t.balance_of(addr(1)), amt(700));
    assert_eq!(t.balance_of(addr(2)), amt(300));
    assert_eq!(t.balance_of(addr(3)), amt(0));
    assert_eq!(
        t.events()[n..].to_vec(),
        vec![
            transfer_event(addr(2), addr(3), 0),
            approval_event(addr(1), addr(3), 0),
            transfer_event(addr(1), addr(2), 0),
        ]
    );
}

#[test]
fn transfer_from_whole_allowance_leaves_zero() {
    let mut t = deployed();
    t.approve(addr(1), addr(3), amt(120));
    let n = t.events().len();
    assert_eq!(t.transfer_from(addr(3), addr(1), addr(3), amt(120)), Ok(true));
    assert_eq!(t.allowance(addr(1), addr(3)), amt(0));
    assert_eq!(t.balance_of(addr(3)), amt(120));
    assert_eq!(
        t.events()[n..].to_vec(),
        vec![approval_event(addr(1), addr(3), 0), transfer_event(addr(1), addr(3), 120)]
    );
}

#[test]
fn transfer_to_zero_address_is_allowed() {
    let mut t = deployed();
    assert_eq!(t.transfer(addr(2), Address::zero(), amt(10)), Ok(true));
    assert_eq!(t.balance_of(Address::zero()), amt(10));
    assert_eq!(t.total_supply(), amt(1000));
}

#[test]
fn mint_overflow_reverts() {
    let mut t = ERC20Token::new();
    let max = U256 { limbs: [u64::MAX; 4] };
    assert_eq!(t.mint(addr(1), max), Ok(true));
    assert_eq!(t.balance_of(addr(1)), max);
    let before = snapshot(&t);
    let r = t.mint(addr(2), amt(1));
    assert_eq!(r, Err(TokenError::Overflow));
    assert_eq!(r.unwrap_err().message(), "Arithmetic overflow");
    assert_eq!(snapshot(&t), before);
}

#[test]
fn second_init_is_refused() {
    let mut t = deployed();
    let before = snapshot(&t);
    let r = t.init(addr(3), "Other".to_string(), "OT".to_string(), 6, amt(5));
    assert_eq!(r, Err(TokenError::AlreadyInitialized));
    assert_eq!(r.unwrap_err().message(), "Already initialized");
    assert_eq!(t.name(), "Tok");
    assert_eq!(snapshot(&t), before);
}

#[test]
fn init_clears_earlier_balances_and_allowances() {
    let mut t = ERC20Token::new();
    t.mint(addr(2), amt(9)).unwrap();
    t.approve(addr(2), addr(3), amt(4));
    t.init(addr(1), "Tok".to_string(), "TK".to_string(), 18, amt(1000)).unwrap();
    assert_eq!(t.balance_of(addr(1)), amt(1000));
    assert_eq!(t.balance_of(addr(2)), amt(0));
    assert_eq!(t.allowance(addr(2), addr(3)), amt(0));
    assert_eq!(t.total_supply(), amt(1000));
}

#[test]
fn mint_carries_across_limbs() {
    let mut t = ERC20Token::new();
    let low_max = U256 { limbs: [u64::MAX, 0, 0, 0] };
    assert_eq!(t.mint(addr(1), low_max), Ok(true));
    assert_eq!(t.mint(addr(1), amt(1)), Ok(true));
    assert_eq!(t.total_supply(), U256 { limbs: [0, 1, 0, 0] });
    assert_eq!(t.balance_of(addr(1)), U256 { limbs: [0, 1, 0, 0] });
    assert_eq!(t.mint(addr(2), amt(5)), Ok(true));
    assert_eq!(t.total_supply(), U256 { limbs: [5, 1, 0, 0] });
}

#[test]
fn transfer_borrows_across_limbs() {
    let mut t = ERC20Token::new();
    t.mint(addr(1), U256 { limbs: [0, 1, 0, 0] }).unwrap();
    assert_eq!(t.transfer(addr(1), addr(2), amt(1)), Ok(true));
    assert_eq!(t.balance_of(addr(1)), U256 { limbs: [u64::MAX, 0, 0, 0] });
    assert_eq!(t.balance_of(addr(2)), amt(1));
    assert_eq!(t.transfer(addr(2), addr(1), amt(2)), Err(TokenError::InsufficientBalance));
}

#[test]
fn mint_up_to_the_largest_supply() {
    let mut t = ERC20Token::new();
    let max = U256 { limbs: [u64::MAX; 4] };
    assert_eq!(t.mint(addr(1), U256 { limbs: [u64::MAX - 1, u64::MAX, u64::MAX, u64::MAX] }), Ok(true));
    assert_eq!(t.mint(addr(2), amt(1)), Ok(true));
    assert_eq!(t.total_supply(), max);
    assert_eq!(t.mint(addr(2), amt(1)), Err(TokenError::Overflow));
    assert_eq!(t.mint(addr(2), U256::zero()), Ok(true));
    assert_eq!(t.total_supply(), max);
}

#[test]
fn addresses_compare_by_bytes() {
    assert!(addr(1).same(&addr(1)));
    assert!(!addr(1).same(&addr(2)));
    let mut b = [0u8; 20];
    b[19] = 1;
    assert!(!Address::from_bytes(b).same(&Address::zero()));
    assert!(Address::from_bytes([0u8; 20]).same(&Address::zero()));
}
