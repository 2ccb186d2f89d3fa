use fund_concert::campaign::Concert;
use fund_concert::registry::ConcertCampaign;

const DONATION_VALUE: u128 = 5870000000000000000000000000000000000;

fn concert(goal: u128, campaign_end: u64, start_date: u64, end_date: u64) -> Concert {
    Concert::new("Concert 1".to_string(), campaign_end, start_date, end_date, &"bob.near".to_string(), goal)
}

#[test]
fn new_concert_campaign() {
    let mut contract = ConcertCampaign::default();
    let campaign_created =
        contract.new_concert_campaign("bob.near".to_string(), "Concert 1".to_string(), 100, 0, 100, 100);
    assert_eq!(campaign_created.name, "Concert 1");
    assert_eq!(campaign_created.artist, "bob.near");
    assert_eq!(contract.len(), 1);
}

#[test]
fn concert_add_donation() {
    let mut contract = ConcertCampaign::default();
    let _campaign_created =
        contract.new_concert_campaign("bob.near".to_string(), "Concert 1".to_string(), 100, 0, 100, 100);

    let artist = "bob.near".to_string();
    let donation_complete = contract.concert_add_donation(artist, "alice.near".to_string(), DONATION_VALUE, 0);
    let artist = "bob.near".to_string();

    assert_eq!(donation_complete, true);
    assert_eq!(contract.len(), 1);

    assert_eq!(contract.get_concert(&artist).unwrap().donors.len(), 1);
    assert_eq!(contract.get_concert(&artist).unwrap().total_donations(), DONATION_VALUE);
}

#[test]
fn two_donations_add_up() {
    let mut c = concert(100, 1000, 0, 500);
    assert!(c.add_donation("alice".to_string(), 30, 10));
    assert!(c.add_donation("alice".to_string(), 45, 10));
    assert_eq!(c.donors.get(&"alice".to_string()), 75);
    assert_eq!(c.donors.len(), 1);
    assert_eq!(c.total_donations(), 75);
}

#[test]
fn refund_without_donation_is_none() {
    let mut c = concert(100, 1000, 0, 500);
    assert!(c.add_donation("alice".to_string(), 30, 10));
    assert_eq!(c.refund_donation("carol".to_string(), 10), None);
    assert_eq!(c.total_donations(), 30);
    assert_eq!(c.donors.len(), 1);
}

#[test]
fn refund_returns_donation_once() {
    let mut c = concert(100, 1000, 0, 500);
    assert!(c.add_donation("alice".to_string(), 30, 10));
    assert!(c.add_donation("dave".to_string(), 5, 10));
    assert_eq!(c.refund_donation("alice".to_string(), 10), Some(30));
    assert_eq!(c.total_donations(), 5);
    assert_eq!(c.donors.get(&"alice".to_string()), 0);
    assert_eq!(c.refund_donation("alice".to_string(), 10), None);
    assert_eq!(c.total_donations(), 5);
}

#[test]
fn funded_at_goal_and_stays_funded() {
    let mut c = concert(100, 1000, 0, 500);
    assert!(!c.is_funded());
    assert!(c.add_donation("alice".to_string(), 99, 10));
    assert!(!c.is_funded());
    assert!(c.add_donation("bob".to_string(), 1, 10));
    assert!(c.is_funded());
    assert!(c.add_donation("carol".to_string(), 7, 10));
    assert!(c.is_funded());
}

#[test]
fn zero_goal_is_funded_from_the_start() {
    let c = concert(0, 1000, 0, 500);
    assert!(c.is_funded());
}

#[test]
fn closed_campaign_changes_nothing() {
    let mut c = concert(100, 1000, 0, 500);
    assert!(c.add_donation("alice".to_string(), 30, 1000));
    assert!(!c.add_donation("alice".to_string(), 30, 1001));
    assert_eq!(c.refund_donation("alice".to_string(), 1001), None);
    assert_eq!(c.total_donations(), 30);
    assert_eq!(c.donors.get(&"alice".to_string()), 30);
}

#[test]
fn scenario_donate_then_refund() {
    let mut c = concert(100, 1000, 0, 500);
    assert!(c.add_donation("A".to_string(), 60, 10));
    assert_eq!(c.total_donations(), 60);
    assert!(!c.is_funded());
    assert!(c.add_donation("A".to_string(), 50, 10));
    assert_eq!(c.total_donations(), 110);
    assert!(c.is_funded());
    assert_eq!(c.refund_donation("A".to_string(), 10), Some(110));
    assert_eq!(c.total_donations(), 0);
    assert!(!c.is_funded());
}

#[test]
fn scenario_donation_after_deadline() {
    let mut c = concert(100, 1000, 0, 500);
    assert!(!c.add_donation("A".to_string(), 60, 2000));
    assert_eq!(c.total_donations(), 0);
}

#[test]
fn overflowing_donation_is_refused() {
    let mut c = concert(100, 1000, 0, 500);
    assert!(c.add_donation("A".to_string(), u128::MAX - 5, 10));
    assert!(!c.add_donation("B".to_string(), 6, 10));
    assert!(c.add_donation("B".to_string(), 5, 10));
    assert_eq!(c.total_donations(), u128::MAX);
    assert_eq!(c.donors.len(), 2);
}

#[test]
fn zero_donation_records_no_donor() {
    let mut c = concert(100, 1000, 0, 500);
    assert!(c.add_donation("A".to_string(), 0, 10));
    assert_eq!(c.donors.len(), 0);
    assert_eq!(c.refund_donation("A".to_string(), 10), None);
}

#[test]
fn event_window_bounds() {
    let c = concert(100, 1000, 10, 500);
    assert!(!c.is_active(9));
    assert!(c.is_active(10));
    assert!(c.is_active(500));
    assert!(!c.is_active(501));
    assert!(c.is_campaign_active(1000));
    assert!(!c.is_campaign_active(1001));
}

#[test]
fn registry_donation_to_missing_campaign() {
    let mut contract = ConcertCampaign::default();
    assert!(!contract.concert_add_donation("nobody".to_string(), "alice".to_string(), 5, 0));
    assert_eq!(contract.concert_refund_donation("nobody".to_string(), "alice".to_string(), 0), None);
    assert_eq!(contract.len(), 0);
}

#[test]
fn registry_refund_and_closed_campaign() {
    let mut contract = ConcertCampaign::default();
    contract.new_concert_campaign("bob.near".to_string(), "Concert 1".to_string(), 100, 0, 100, 100);
    contract.new_concert_campaign("eve.near".to_string(), "Concert 2".to_string(), 50, 0, 100, 10);
    assert!(contract.concert_add_donation("bob.near".to_string(), "alice".to_string(), 40, 100));
    assert!(!contract.concert_add_donation("bob.near".to_string(), "alice".to_string(), 40, 101));
    assert_eq!(contract.concert_refund_donation("bob.near".to_string(), "alice".to_string(), 101), None);
    assert_eq!(contract.concert_refund_donation("eve.near".to_string(), "alice".to_string(), 10), None);
    assert_eq!(contract.concert_refund_donation("bob.near".to_string(), "alice".to_string(), 100), Some(40));
    assert_eq!(contract.get_concert(&"bob.near".to_string()).unwrap().total_donations(), 0);
    assert_eq!(contract.len(), 2);
}

#[test]
fn new_campaign_replaces_old_one() {
    let mut contract = ConcertCampaign::default();
    contract.new_concert_campaign("bob.near".to_string(), "Concert 1".to_string(), 100, 0, 100, 100);
    assert!(contract.concert_add_donation("bob.near".to_string(), "alice".to_string(), 40, 0));
    let c = contract.new_concert_campaign("bob.near".to_string(), "Concert 2".to_string(), 200, 0, 100, 7);
    assert_eq!(c.goal, 7);
    assert_eq!(contract.len(), 1);
    let stored = contract.get_concert(&"bob.near".to_string()).unwrap();
    assert_eq!(stored.name, "Concert 2");
    assert_eq!(stored.total_donations(), 0);
}
