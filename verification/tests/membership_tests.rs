use allocations::membership::{AuthorizedSet, MembershipRegistry, Role};

#[test]
fn fresh_set_is_empty() {
    let s = AuthorizedSet::new();
    assert!(!s.contains(1));
    assert!(!s.contains(0));
}

#[test]
fn set_members_replaces_wholesale() {
    let mut s = AuthorizedSet::new();
    s.set_members(&vec![1, 2, 3]);
    assert!(s.contains(1));
    assert!(s.contains(2));
    assert!(s.contains(3));
    assert!(!s.contains(4));
    s.set_members(&vec![4]);
    assert!(!s.contains(1));
    assert!(!s.contains(2));
    assert!(!s.contains(3));
    assert!(s.contains(4));
}

#[test]
fn duplicate_accounts_collapse() {
    let mut s = AuthorizedSet::new();
    s.set_members(&vec![7, 7, 7, 8]);
    assert!(s.contains(7));
    assert!(s.contains(8));
    let mut t = AuthorizedSet::new();
    t.set_members(&vec![7, 8]);
    // Same membership either way.
    for a in 0..16 {
        assert_eq!(s.contains(a), t.contains(a));
    }
}

#[test]
fn roles_are_independent() {
    let mut reg = MembershipRegistry::new();
    reg.set_members(Role::Oracle, &vec![1]);
    reg.set_members(Role::Technical, &vec![2]);
    reg.set_members(Role::Financial, &vec![3]);
    reg.set_members(Role::Root, &vec![4]);
    assert!(reg.is_member(Role::Oracle, 1));
    assert!(!reg.is_member(Role::Oracle, 2));
    assert!(reg.is_member(Role::Technical, 2));
    assert!(!reg.is_member(Role::Technical, 1));
    assert!(reg.is_member(Role::Financial, 3));
    assert!(reg.is_member(Role::Root, 4));
    // Replacing one role leaves the others alone.
    reg.set_members(Role::Oracle, &vec![9]);
    assert!(!reg.is_member(Role::Oracle, 1));
    assert!(reg.is_member(Role::Oracle, 9));
    assert!(reg.is_member(Role::Technical, 2));
    assert!(reg.is_member(Role::Root, 4));
}

#[test]
fn one_account_may_hold_several_roles() {
    let mut reg = MembershipRegistry::new();
    reg.set_members(Role::Technical, &vec![5]);
    reg.set_members(Role::Financial, &vec![5]);
    reg.set_members(Role::Root, &vec![5]);
    assert!(reg.is_member(Role::Technical, 5));
    assert!(reg.is_member(Role::Financial, 5));
    assert!(reg.is_member(Role::Root, 5));
    assert!(!reg.is_member(Role::Oracle, 5));
}
