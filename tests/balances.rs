use clawchain::{AccountData, Balances, Error};

#[test]
fn genesis_funds_three_accounts() {
    let ext = clawchain::new_test_ext();
    for who in 1..=3u64 {
        assert_eq!(ext.balances.free_balance(who), 10000);
        assert_eq!(ext.balances.reserved_balance(who), 0);
    }
    assert_eq!(ext.balances.free_balance(4), 0);
}

#[test]
fn reserve_and_unreserve_move_funds() {
    let mut b = Balances::new();
    assert!(b.set_free_balance(1, 500).is_ok());
    assert_eq!(b.reserve(1, 501), Err(Error::InsufficientBalance));
    assert!(b.reserve(1, 200).is_ok());
    assert_eq!((b.free_balance(1), b.reserved_balance(1)), (300, 200));
    assert_eq!(b.unreserve(1, 201), Err(Error::InsufficientBalance));
    assert!(b.unreserve(1, 150).is_ok());
    assert_eq!((b.free_balance(1), b.reserved_balance(1)), (450, 50));
}

#[test]
fn transfer_from_reserved_pays_free_balance() {
    let mut b = Balances::new();
    assert!(b.set_free_balance(1, 500).is_ok());
    assert!(b.set_free_balance(2, 7).is_ok());
    assert!(b.reserve(1, 300).is_ok());
    assert_eq!(b.transfer_from_reserved(1, 2, 301), Err(Error::InsufficientBalance));
    assert!(b.transfer_from_reserved(1, 2, 100).is_ok());
    assert_eq!((b.free_balance(1), b.reserved_balance(1)), (200, 200));
    assert_eq!((b.free_balance(2), b.reserved_balance(2)), (107, 0));
    assert!(b.transfer_from_reserved(1, 1, 50).is_ok());
    assert_eq!((b.free_balance(1), b.reserved_balance(1)), (250, 150));
}

#[test]
fn balances_never_overflow() {
    let mut b = Balances::new();
    assert!(b.set_free_balance(1, 10).is_ok());
    assert!(b.reserve(1, 10).is_ok());
    assert!(b.set_free_balance(2, u64::MAX).is_ok());
    assert_eq!(b.transfer_from_reserved(1, 2, 5), Err(Error::Overflow));
    assert_eq!(b.reserved_balance(1), 10);
    assert_eq!(b.set_free_balance(1, u64::MAX), Err(Error::Overflow));
    let _ = AccountData { free: 0, reserved: 0 };
}
