use event_tickets::{ContractError, EventContract, EventDetails};

fn new_event_details() -> EventDetails {
    EventDetails {
        date: 1_700_000_000 * 1000 * 1000000,
        location: "space".to_owned(),
        title: "space party".to_owned(),
        description: "come dance and chat with friends".to_owned(),
        image_url: "".to_owned(),
    }
}

fn id(s: &str) -> String {
    s.to_string()
}

fn initialized(host: &str) -> EventContract {
    let mut e = EventContract::new();
    assert_eq!(e.initialize(new_event_details(), &id(host)), Ok(()));
    e
}

fn on_sale(host: &str, max: u32, price: u128) -> EventContract {
    let mut e = initialized(host);
    let h = id(host);
    assert_eq!(e.set_max_tickets(max, &h), Ok(()));
    assert_eq!(e.set_ticket_price(price, &h), Ok(()));
    assert_eq!(e.go_public(&h), Ok(()));
    e
}

#[test]
fn scenario_single_ticket_sale_and_payout() {
    let mut e = on_sale("host", 1, 100);
    assert_eq!(e.buy_ticket(&id("alice"), 100), Ok(0));
    assert_eq!(e.get_tickets_sold(), Ok(1));
    assert_eq!(e.get_balance(), Ok(100));
    assert_eq!(e.buy_ticket(&id("bob"), 100), Err(ContractError::CapacityExceeded));
    let p = e.pay_hosts(&id("host")).unwrap();
    assert_eq!(p.recipient, "host");
    assert_eq!(p.amount, 100);
    assert_eq!(e.get_balance(), Ok(0));
}

#[test]
fn scenario_max_tickets_below_sold() {
    let mut e = on_sale("host", 3, 10);
    assert_eq!(e.buy_ticket(&id("alice"), 10), Ok(0));
    assert_eq!(e.set_max_tickets(0, &id("host")), Err(ContractError::InvalidArgument));
    assert_eq!(e.get_max_tickets(), Ok(3));
    assert_eq!(e.set_max_tickets(1, &id("host")), Ok(()));
}

#[test]
fn sales_stop_at_capacity() {
    let mut e = on_sale("host", 3, 5);
    for name in ["a", "b", "c"] {
        assert_eq!(e.buy_ticket(&id(name), 5), Ok(0));
        assert!(e.get_tickets_sold().unwrap() <= e.get_max_tickets().unwrap());
    }
    assert_eq!(e.buy_ticket(&id("d"), 5), Err(ContractError::CapacityExceeded));
    assert_eq!(e.get_tickets_sold(), Ok(3));
    assert_eq!(e.get_balance(), Ok(15));
    assert!(!e.has_ticket(&id("d")));
}

#[test]
fn has_ticket_follows_guest_list() {
    let mut e = EventContract::new();
    assert!(!e.has_ticket(&id("alice")));
    assert_eq!(e.initialize(new_event_details(), &id("host")), Ok(()));
    assert!(!e.has_ticket(&id("alice")));
    assert_eq!(e.set_max_tickets(2, &id("host")), Ok(()));
    assert_eq!(e.add_guest(id("alice"), &id("host")), Ok(()));
    assert!(e.has_ticket(&id("alice")));
    assert!(!e.has_ticket(&id("bob")));
    assert_eq!(e.remove_guest(id("alice"), &id("host")), Ok(()));
    assert!(!e.has_ticket(&id("alice")));
    assert_eq!(e.get_tickets_sold(), Ok(0));
}

#[test]
fn go_public_is_idempotent_and_permanent() {
    let mut e = initialized("host");
    let h = id("host");
    assert_eq!(e.get_event(&id("stranger")).err(), Some(ContractError::NotAuthorized));
    assert_eq!(e.go_public(&h), Ok(()));
    assert_eq!(e.go_public(&h), Ok(()));
    assert!(e.get_event(&id("stranger")).unwrap().public);
    assert_eq!(e.set_ticket_price(7, &h), Ok(()));
    assert_eq!(e.set_details(new_event_details(), &h), Ok(()));
    assert_eq!(e.add_cohost(id("carol"), &h), Ok(()));
    assert!(e.get_event(&id("stranger")).unwrap().public);
}

#[test]
fn only_host_edits_cohosts() {
    let mut e = initialized("host");
    assert_eq!(e.add_cohost(id("carol"), &id("stranger")), Err(ContractError::NotAuthorized));
    assert_eq!(e.add_cohost(id("carol"), &id("host")), Ok(()));
    assert_eq!(e.add_cohost(id("dave"), &id("carol")), Err(ContractError::NotAuthorized));
    assert_eq!(e.remove_cohost(id("carol"), &id("carol")), Err(ContractError::NotAuthorized));
    assert_eq!(e.get_cohosts(), Ok(vec![id("carol")]));
    assert_eq!(e.remove_cohost(id("carol"), &id("host")), Ok(()));
    assert_eq!(e.get_cohosts(), Ok(vec![]));
}

#[test]
fn cohost_edits_are_idempotent() {
    let mut e = initialized("host");
    let h = id("host");
    assert_eq!(e.add_cohost(id("carol"), &h), Ok(()));
    assert_eq!(e.add_cohost(id("carol"), &h), Ok(()));
    assert_eq!(e.add_cohost(id("host"), &h), Ok(()));
    assert_eq!(e.get_cohosts(), Ok(vec![id("carol")]));
    assert_eq!(e.remove_cohost(id("nobody"), &h), Ok(()));
    assert_eq!(e.get_cohosts(), Ok(vec![id("carol")]));
}

#[test]
fn second_payout_finds_nothing() {
    let mut e = on_sale("host", 2, 40);
    assert_eq!(e.buy_ticket(&id("alice"), 40), Ok(0));
    assert!(e.pay_hosts(&id("host")).is_ok());
    assert_eq!(e.pay_hosts(&id("host")).err(), Some(ContractError::NothingToPay));
}

#[test]
fn payout_goes_to_host_when_cohost_asks() {
    let mut e = on_sale("host", 2, 40);
    assert_eq!(e.add_cohost(id("carol"), &id("host")), Ok(()));
    assert_eq!(e.buy_ticket(&id("alice"), 40), Ok(0));
    assert_eq!(e.pay_hosts(&id("alice")).err(), Some(ContractError::NotAuthorized));
    let p = e.pay_hosts(&id("carol")).unwrap();
    assert_eq!(p.recipient, "host");
    assert_eq!(p.amount, 40);
}

#[test]
fn excess_payment_is_refunded() {
    let mut e = on_sale("host", 2, 100);
    assert_eq!(e.buy_ticket(&id("alice"), 150), Ok(50));
    assert_eq!(e.get_balance(), Ok(100));
}

#[test]
fn purchase_errors() {
    let mut e = initialized("host");
    assert_eq!(e.set_max_tickets(5, &id("host")), Ok(()));
    assert_eq!(e.set_ticket_price(100, &id("host")), Ok(()));
    assert_eq!(e.buy_ticket(&id("alice"), 100), Err(ContractError::NotAuthorized));
    assert_eq!(e.go_public(&id("host")), Ok(()));
    assert_eq!(e.buy_ticket(&id("alice"), 99), Err(ContractError::InsufficientPayment));
    assert_eq!(e.buy_ticket(&id("alice"), 100), Ok(0));
    assert_eq!(e.buy_ticket(&id("alice"), 100), Err(ContractError::AlreadyTicketed));
    assert_eq!(e.get_tickets_sold(), Ok(1));
}

#[test]
fn balance_that_would_overflow_is_refused() {
    let mut e = on_sale("host", 3, u128::MAX - 1);
    assert_eq!(e.buy_ticket(&id("alice"), u128::MAX), Ok(1));
    assert_eq!(e.buy_ticket(&id("bob"), u128::MAX), Err(ContractError::InvalidArgument));
    assert_eq!(e.get_balance(), Ok(u128::MAX - 1));
    assert!(!e.has_ticket(&id("bob")));
}

#[test]
fn uninitialized_and_reinitialized() {
    let mut e = EventContract::new();
    assert_eq!(e.get_host(), Err(ContractError::NotInitialized));
    assert_eq!(e.get_ticket_price(), Err(ContractError::NotInitialized));
    assert_eq!(e.get_max_tickets(), Err(ContractError::NotInitialized));
    assert_eq!(e.get_tickets_sold(), Err(ContractError::NotInitialized));
    assert!(e.get_details().is_err());
    assert!(e.get_event(&id("host")).is_err());
    assert_eq!(e.go_public(&id("host")), Err(ContractError::NotInitialized));
    assert_eq!(e.initialize(new_event_details(), &id("host")), Ok(()));
    assert_eq!(e.initialize(new_event_details(), &id("other")), Err(ContractError::AlreadyInitialized));
    assert_eq!(e.get_host(), Ok(id("host")));
    assert_eq!(e.get_ticket_price(), Ok(0));
    assert_eq!(e.get_max_tickets(), Ok(0));
    assert_eq!(e.get_details().unwrap().title, "space party");
}

#[test]
fn manual_guests_respect_capacity_and_roles() {
    let mut e = initialized("host");
    assert_eq!(e.add_guest(id("alice"), &id("host")), Err(ContractError::CapacityExceeded));
    assert_eq!(e.set_max_tickets(1, &id("host")), Ok(()));
    assert_eq!(e.add_guest(id("alice"), &id("bob")), Err(ContractError::NotAuthorized));
    assert_eq!(e.add_cohost(id("carol"), &id("host")), Ok(()));
    assert_eq!(e.add_guest(id("alice"), &id("carol")), Ok(()));
    assert_eq!(e.get_tickets_sold(), Ok(1));
    assert_eq!(e.remove_guest(id("alice"), &id("bob")), Err(ContractError::NotAuthorized));
    assert_eq!(e.remove_guest(id("nobody"), &id("carol")), Ok(()));
    assert_eq!(e.get_tickets_sold(), Ok(1));
}

#[test]
fn private_event_visible_to_members() {
    let mut e = initialized("host");
    assert_eq!(e.set_max_tickets(1, &id("host")), Ok(()));
    assert_eq!(e.add_cohost(id("carol"), &id("host")), Ok(()));
    assert_eq!(e.add_guest(id("alice"), &id("host")), Ok(()));
    let mut details = new_event_details();
    details.title = "moon party".to_owned();
    assert_eq!(e.set_details(details, &id("carol")), Ok(()));
    for who in ["host", "carol", "alice"] {
        let ev = e.get_event(&id(who)).unwrap();
        assert!(!ev.public);
        assert_eq!(ev.details.title, "moon party");
    }
    assert_eq!(e.get_event(&id("bob")).err(), Some(ContractError::NotAuthorized));
}
