use fund_concert::followers::Followers;

#[test]
fn follow_then_check_followers() {
    let mut contract = Followers::default();
    let test_account_id = "testing_near".to_string();
    let mut test_account_followers = contract.get_followers(&test_account_id);

    assert_eq!(
        test_account_followers.len(),
        0,
        "Test account followers should be empty at the beginning"
    );
    contract.follow("bob_near".to_string(), test_account_id.clone());
    test_account_followers = contract.get_followers(&test_account_id);
    assert_eq!(
        test_account_followers.len(),
        1,
        "Test account followers should have one element after execution of follow function"
    );
}

#[test]
fn follow_then_check_following() {
    let signer_account_id = "bob_near".to_string();
    let mut contract = Followers::default();
    let test_account_id = "testing_near".to_string();
    let mut signer_following = contract.get_following(&signer_account_id);

    assert_eq!(
        signer_following.len(),
        0,
        "Contract signer should not be following anyone at the beginning"
    );
    contract.follow(signer_account_id.clone(), test_account_id.to_string());
    signer_following = contract.get_following(&signer_account_id);
    assert_eq!(
        signer_following.len(),
        1,
        "Contract signer should be following one person after execution of follow function"
    );
}

#[test]
fn following_twice_records_once() {
    let mut contract = Followers::default();
    contract.follow("a".to_string(), "b".to_string());
    contract.follow("a".to_string(), "b".to_string());
    contract.follow("c".to_string(), "b".to_string());
    assert_eq!(contract.get_followers(&"b".to_string()), vec!["a".to_string(), "c".to_string()]);
    assert_eq!(contract.get_following(&"a".to_string()), vec!["b".to_string()]);
    assert_eq!(contract.get_following(&"b".to_string()).len(), 0);
    let r = contract.get_relationships(&"b".to_string());
    assert_eq!(r.followers.len(), 2);
    assert_eq!(r.following.len(), 0);
}

#[test]
fn default_relationships_are_empty() {
    let r = fund_concert::followers::Relationships::default();
    assert!(r.followers.is_empty());
    assert!(r.following.is_empty());
}
