//! One ticketed event: who runs it, who holds tickets, what a ticket costs,
//! and the balance that ticket sales have gathered.
use vstd::prelude::*;

use crate::error::ContractError;
use crate::identity::{contains_id, copy_ids, id_set, ids, lemma_push_id, lemma_remove_id, lemma_unique_len, position_of, unique_ids};

verus! {

/// Descriptive record of an event. `date` is Unix time in nanoseconds.
#[derive(Debug)]
pub struct EventDetails {
    pub date: u64,
    pub location: String,
    pub title: String,
    pub description: String,
    pub image_url: String,
}

impl EventDetails {
    /// A field-by-field copy.
    pub fn copied(&self) -> (r: EventDetails)
        ensures
            r == *self,
    {
        EventDetails {
            date: self.date,
            location: self.location.clone(),
            title: self.title.clone(),
            description: self.description.clone(),
            image_url: self.image_url.clone(),
        }
    }
}

/// What a visitor allowed to see the event is shown.
#[derive(Debug)]
pub struct Event {
    pub public: bool,
    pub details: EventDetails,
}

/// A transfer out of the event's balance, for the runtime to carry out.
#[derive(Debug)]
pub struct Payout {
    pub recipient: String,
    pub amount: u128,
}

/// The abstract state of an initialized event.
pub ghost struct EventModel {
    pub host: Seq<char>,
    pub cohosts: Set<Seq<char>>,
    pub guests: Set<Seq<char>>,
    pub details: EventDetails,
    pub ticket_price: u128,
    pub max_tickets: u32,
    pub tickets_sold: u32,
    pub is_public: bool,
    pub balance: u128,
}

impl EventModel {
    /// The invariants that every reachable state keeps.
    pub open spec fn valid(self) -> bool {
        &&& self.tickets_sold <= self.max_tickets
        &&& self.guests.finite()
        &&& self.guests.len() == self.tickets_sold
        &&& self.cohosts.finite()
        &&& !self.cohosts.contains(self.host)
    }

    /// The host and the cohosts may manage the event.
    pub open spec fn is_manager(self, who: Seq<char>) -> bool {
        who == self.host || self.cohosts.contains(who)
    }

    /// Whether `who` may see the event's details.
    pub open spec fn may_view(self, who: Seq<char>) -> bool {
        self.is_public || self.is_manager(who) || self.guests.contains(who)
    }
}

/// Publicity is never withdrawn between two states.
pub open spec fn keeps_public(before: Option<EventModel>, after: Option<EventModel>) -> bool {
    match before {
        Some(m) => m.is_public ==> (after is Some && after->Some_0.is_public),
        None => true,
    }
}

/// Whether `who` holds a ticket in the given state.
pub open spec fn holds_ticket(s: Option<EventModel>, who: Seq<char>) -> bool {
    match s {
        Some(m) => m.guests.contains(who),
        None => false,
    }
}

/// The state right after initialization by `host`.
pub open spec fn initial_model(details: EventDetails, host: Seq<char>) -> EventModel {
    EventModel {
        host,
        cohosts: Set::empty(),
        guests: Set::empty(),
        details,
        ticket_price: 0,
        max_tickets: 0,
        tickets_sold: 0,
        is_public: false,
        balance: 0,
    }
}

/// Initialization: allowed once, and it makes the caller the host.
pub open spec fn initialize_step(s: Option<EventModel>, details: EventDetails, caller: Seq<char>) -> (
    Option<EventModel>,
    Result<(), ContractError>,
) {
    match s {
        Some(_) => (s, Err(ContractError::AlreadyInitialized)),
        None => (Some(initial_model(details, caller)), Ok(())),
    }
}

/// What `get_event` answers to `caller`.
pub open spec fn get_event_result(s: Option<EventModel>, caller: Seq<char>) -> Result<Event, ContractError> {
    match s {
        None => Err(ContractError::NotInitialized),
        Some(m) => if m.may_view(caller) {
            Ok(Event { public: m.is_public, details: m.details })
        } else {
            Err(ContractError::NotAuthorized)
        },
    }
}

/// Adding a cohost: for the host alone; the host itself is never a cohost.
pub open spec fn add_cohost_step(s: Option<EventModel>, cohost: Seq<char>, caller: Seq<char>) -> (
    Option<EventModel>,
    Result<(), ContractError>,
) {
    match s {
        None => (s, Err(ContractError::NotInitialized)),
        Some(m) => if caller != m.host {
            (s, Err(ContractError::NotAuthorized))
        } else if cohost == m.host {
            (s, Ok(()))
        } else {
            (Some(EventModel { cohosts: m.cohosts.insert(cohost), ..m }), Ok(()))
        },
    }
}

/// Removing a cohost: for the host alone.
pub open spec fn remove_cohost_step(s: Option<EventModel>, cohost: Seq<char>, caller: Seq<char>) -> (
    Option<EventModel>,
    Result<(), ContractError>,
) {
    match s {
        None => (s, Err(ContractError::NotInitialized)),
        Some(m) => if caller != m.host {
            (s, Err(ContractError::NotAuthorized))
        } else {
            (Some(EventModel { cohosts: m.cohosts.remove(cohost), ..m }), Ok(()))
        },
    }
}

/// Granting a ticket by hand: for the host and cohosts, within capacity; a
/// guest already on the list is left there.
pub open spec fn add_guest_step(s: Option<EventModel>, guest: Seq<char>, caller: Seq<char>) -> (
    Option<EventModel>,
    Result<(), ContractError>,
) {
    match s {
        None => (s, Err(ContractError::NotInitialized)),
        Some(m) => if !m.is_manager(caller) {
            (s, Err(ContractError::NotAuthorized))
        } else if m.tickets_sold >= m.max_tickets {
            (s, Err(ContractError::CapacityExceeded))
        } else if m.guests.contains(guest) {
            (s, Ok(()))
        } else {
            (
                Some(
                    EventModel {
                        guests: m.guests.insert(guest),
                        tickets_sold: (m.tickets_sold + 1) as u32,
                        ..m
                    },
                ),
                Ok(()),
            )
        },
    }
}

/// Taking a ticket back: for the host and cohosts; the balance stays.
pub open spec fn remove_guest_step(s: Option<EventModel>, guest: Seq<char>, caller: Seq<char>) -> (
    Option<EventModel>,
    Result<(), ContractError>,
) {
    match s {
        None => (s, Err(ContractError::NotInitialized)),
        Some(m) => if !m.is_manager(caller) {
            (s, Err(ContractError::NotAuthorized))
        } else if !m.guests.contains(guest) {
            (s, Ok(()))
        } else {
            (
                Some(
                    EventModel {
                        guests: m.guests.remove(guest),
                        tickets_sold: (m.tickets_sold - 1) as u32,
                        ..m
                    },
                ),
                Ok(()),
            )
        },
    }
}

/// Replacing the details: for the host and cohosts.
pub open spec fn set_details_step(s: Option<EventModel>, details: EventDetails, caller: Seq<char>) -> (
    Option<EventModel>,
    Result<(), ContractError>,
) {
    match s {
        None => (s, Err(ContractError::NotInitialized)),
        Some(m) => if !m.is_manager(caller) {
            (s, Err(ContractError::NotAuthorized))
        } else {
            (Some(EventModel { details, ..m }), Ok(()))
        },
    }
}

/// Setting the capacity: for the host and cohosts, never below the tickets
/// sold.
pub open spec fn set_max_tickets_step(s: Option<EventModel>, num: u32, caller: Seq<char>) -> (
    Option<EventModel>,
    Result<(), ContractError>,
) {
    match s {
        None => (s, Err(ContractError::NotInitialized)),
        Some(m) => if !m.is_manager(caller) {
            (s, Err(ContractError::NotAuthorized))
        } else if num < m.tickets_sold {
            (s, Err(ContractError::InvalidArgument))
        } else {
            (Some(EventModel { max_tickets: num, ..m }), Ok(()))
        },
    }
}

/// Setting the price: for the host and cohosts.
pub open spec fn set_ticket_price_step(s: Option<EventModel>, price: u128, caller: Seq<char>) -> (
    Option<EventModel>,
    Result<(), ContractError>,
) {
    match s {
        None => (s, Err(ContractError::NotInitialized)),
        Some(m) => if !m.is_manager(caller) {
            (s, Err(ContractError::NotAuthorized))
        } else {
            (Some(EventModel { ticket_price: price, ..m }), Ok(()))
        },
    }
}

/// Going public: for the host and cohosts, and for good.
pub open spec fn go_public_step(s: Option<EventModel>, caller: Seq<char>) -> (
    Option<EventModel>,
    Result<(), ContractError>,
) {
    match s {
        None => (s, Err(ContractError::NotInitialized)),
        Some(m) => if !m.is_manager(caller) {
            (s, Err(ContractError::NotAuthorized))
        } else {
            (Some(EventModel { is_public: true, ..m }), Ok(()))
        },
    }
}

/// A purchase keeps the ticket price and hands back the rest of the payment,
/// which is the `Ok` value.
pub open spec fn buy_ticket_step(s: Option<EventModel>, caller: Seq<char>, payment: u128) -> (
    Option<EventModel>,
    Result<u128, ContractError>,
) {
    match s {
        None => (s, Err(ContractError::NotInitialized)),
        Some(m) => if !m.is_public {
            (s, Err(ContractError::NotAuthorized))
        } else if m.tickets_sold >= m.max_tickets {
            (s, Err(ContractError::CapacityExceeded))
        } else if payment < m.ticket_price {
            (s, Err(ContractError::InsufficientPayment))
        } else if m.guests.contains(caller) {
            (s, Err(ContractError::AlreadyTicketed))
        } else if m.balance + m.ticket_price > u128::MAX {
            (s, Err(ContractError::InvalidArgument))
        } else {
            (
                Some(
                    EventModel {
                        guests: m.guests.insert(caller),
                        tickets_sold: (m.tickets_sold + 1) as u32,
                        balance: (m.balance + m.ticket_price) as u128,
                        ..m
                    },
                ),
                Ok((payment - m.ticket_price) as u128),
            )
        },
    }
}

/// A payout sends the whole balance to the host: the `Ok` value is the
/// recipient and the amount.
pub open spec fn pay_hosts_step(s: Option<EventModel>, caller: Seq<char>) -> (
    Option<EventModel>,
    Result<(Seq<char>, u128), ContractError>,
) {
    match s {
        None => (s, Err(ContractError::NotInitialized)),
        Some(m) => if !m.is_manager(caller) {
            (s, Err(ContractError::NotAuthorized))
        } else if m.balance == 0 {
            (s, Err(ContractError::NothingToPay))
        } else {
            (Some(EventModel { balance: 0, ..m }), Ok((m.host, m.balance)))
        },
    }
}

/// A payout as plain values: recipient and amount.
pub open spec fn payout_view(r: Result<Payout, ContractError>) -> Result<(Seq<char>, u128), ContractError> {
    match r {
        Ok(p) => Ok((p.recipient@, p.amount)),
        Err(e) => Err(e),
    }
}

/// A purchase never takes the sold tickets past the capacity and keeps every
/// invariant of the event; once all tickets are sold, a purchase on a public
/// event is refused with `CapacityExceeded` and changes nothing.
pub proof fn lemma_purchase_within_capacity(s: Option<EventModel>, caller: Seq<char>, payment: u128)
    requires
        s matches Some(m) ==> m.valid(),
    ensures
        buy_ticket_step(s, caller, payment).0 matches Some(m) ==> m.valid(),
        s matches Some(m) && m.is_public && m.tickets_sold == m.max_tickets ==> buy_ticket_step(
            s,
            caller,
            payment,
        ) == (s, Err::<u128, ContractError>(ContractError::CapacityExceeded)),
{
}

/// Going public a second time changes nothing and answers as the first
/// time did.
pub proof fn lemma_go_public_idempotent(s: Option<EventModel>, caller: Seq<char>)
    ensures
        go_public_step(go_public_step(s, caller).0, caller) == go_public_step(s, caller),
        keeps_public(s, go_public_step(s, caller).0),
{
    if let Some(m) = s {
        if m.is_manager(caller) {
            let once = EventModel { is_public: true, ..m };
            assert(EventModel { is_public: true, ..once } == once);
        }
    }
}

/// Only the host changes the cohosts: for any other caller both operations
/// are refused with `NotAuthorized` and leave the event as it was.
pub proof fn lemma_only_host_edits_cohosts(s: Option<EventModel>, cohost: Seq<char>, caller: Seq<char>)
    ensures
        s matches Some(m) && caller != m.host ==> add_cohost_step(s, cohost, caller) == (
            s,
            Err::<(), ContractError>(ContractError::NotAuthorized),
        ),
        s matches Some(m) && caller != m.host ==> remove_cohost_step(s, cohost, caller) == (
            s,
            Err::<(), ContractError>(ContractError::NotAuthorized),
        ),
        add_cohost_step(s, cohost, caller).1 is Ok ==> (s matches Some(m) && caller == m.host),
        remove_cohost_step(s, cohost, caller).1 is Ok ==> (s matches Some(m) && caller == m.host),
{
}

/// Right after a payout, a second payout by a host or cohost finds nothing
/// to pay and changes nothing.
pub proof fn lemma_second_payout_refused(s: Option<EventModel>, first: Seq<char>, second: Seq<char>)
    requires
        pay_hosts_step(s, first).1 is Ok,
        pay_hosts_step(s, first).0 matches Some(m) && m.is_manager(second),
    ensures
        pay_hosts_step(pay_hosts_step(s, first).0, second) == (
            pay_hosts_step(s, first).0,
            Err::<(Seq<char>, u128), ContractError>(ContractError::NothingToPay),
        ),
{
}

struct EventState {
    host: String,
    cohosts: Vec<String>,
    guests: Vec<String>,
    details: EventDetails,
    ticket_price: u128,
    max_tickets: u32,
    tickets_sold: u32,
    is_public: bool,
    balance: u128,
}

impl EventState {
    spec fn model(&self) -> EventModel {
        EventModel {
            host: self.host@,
            cohosts: id_set(self.cohosts@),
            guests: id_set(self.guests@),
            details: self.details,
            ticket_price: self.ticket_price,
            max_tickets: self.max_tickets,
            tickets_sold: self.tickets_sold,
            is_public: self.is_public,
            balance: self.balance,
        }
    }

    spec fn inv(&self) -> bool {
        &&& unique_ids(self.cohosts@)
        &&& unique_ids(self.guests@)
        &&& !id_set(self.cohosts@).contains(self.host@)
        &&& self.guests@.len() == self.tickets_sold
        &&& self.tickets_sold <= self.max_tickets
    }

    fn is_manager(&self, who: &String) -> (r: bool)
        ensures
            r == self.model().is_manager(who@),
    {
        *who == self.host || contains_id(&self.cohosts, who)
    }
}

/// The contract that manages one event. Before `initialize` it holds no
/// event.
pub struct EventContract {
    initialized: bool,
    state: EventState,
}

impl View for EventContract {
    type V = Option<EventModel>;

    closed spec fn view(&self) -> Option<EventModel> {
        if self.initialized {
            Some(self.state.model())
        } else {
            None
        }
    }
}

impl EventContract {
    /// The representation invariant.
    pub closed spec fn wf(&self) -> bool {
        self.initialized ==> self.state.inv()
    }

    /// A contract that holds no event yet.
    pub fn new() -> (r: EventContract)
        ensures
            r.wf(),
            r@ is None,
    {
        EventContract {
            initialized: false,
            state: EventState {
                host: String::new(),
                cohosts: Vec::new(),
                guests: Vec::new(),
                details: EventDetails {
                    date: 0,
                    location: String::new(),
                    title: String::new(),
                    description: String::new(),
                    image_url: String::new(),
                },
                ticket_price: 0,
                max_tickets: 0,
                tickets_sold: 0,
                is_public: false,
                balance: 0,
            },
        }
    }

    /// Every state that a well-formed contract can be in keeps the event's
    /// invariants; in particular no more tickets are sold than there are.
    pub proof fn lemma_wf_valid(&self)
        requires
            self.wf(),
        ensures
            self@ matches Some(m) ==> m.valid(),
    {
        if self.initialized {
            lemma_unique_len(self.state.guests@);
            lemma_unique_len(self.state.cohosts@);
        }
    }

    /// Buys a ticket for `caller`, who attached `attached_payment`; returns
    /// the excess over the ticket price, to be refunded.
    pub fn buy_ticket(&mut self, caller: &String, attached_payment: u128) -> (r: Result<u128, ContractError>)
        requires
            old(self).wf(),
        ensures
            final(self).wf(),
            (final(self)@, r) == buy_ticket_step(old(self)@, caller@, attached_payment),
            keeps_public(old(self)@, final(self)@),
    {
        if !self.initialized {
            return Err(ContractError::NotInitialized);
        }
        if !self.state.is_public {
            return Err(ContractError::NotAuthorized);
        }
        if self.state.tickets_sold >= self.state.max_tickets {
            return Err(ContractError::CapacityExceeded);
        }
        let price = self.state.ticket_price;
        if attached_payment < price {
            return Err(ContractError::InsufficientPayment);
        }
        if contains_id(&self.state.guests, caller) {
            return Err(ContractError::AlreadyTicketed);
        }
        if self.state.balance > u128::MAX - price {
            return Err(ContractError::InvalidArgument);
        }
        proof {
            lemma_push_id(self.state.guests@, *caller);
        }
        self.state.guests.push(caller.clone());
        self.state.tickets_sold = self.state.tickets_sold + 1;
        self.state.balance = self.state.balance + price;
        proof {
            assert(self.state.model() == EventModel {
                guests: old(self)@->Some_0.guests.insert(caller@),
                tickets_sold: (old(self)@->Some_0.tickets_sold + 1) as u32,
                balance: (old(self)@->Some_0.balance + price) as u128,
                ..old(self)@->Some_0
            });
        }
        Ok(attached_payment - price)
    }

    /// Grants `guest` a ticket without payment; for the host and cohosts.
    pub fn add_guest(&mut self, guest: String, caller: &String) -> (r: Result<(), ContractError>)
        requires
            old(self).wf(),
        ensures
            final(self).wf(),
            (final(self)@, r) == add_guest_step(old(self)@, guest@, caller@),
            keeps_public(old(self)@, final(self)@),
    {
        if !self.initialized {
            return Err(ContractError::NotInitialized);
        }
        if !self.state.is_manager(caller) {
            return Err(ContractError::NotAuthorized);
        }
        if self.state.tickets_sold >= self.state.max_tickets {
            return Err(ContractError::CapacityExceeded);
        }
        if contains_id(&self.state.guests, &guest) {
            return Ok(());
        }
        proof {
            lemma_push_id(self.state.guests@, guest);
        }
        self.state.guests.push(guest);
        self.state.tickets_sold = self.state.tickets_sold + 1;
        proof {
            assert(self.state.model() == EventModel {
                guests: old(self)@->Some_0.guests.insert(guest@),
                tickets_sold: (old(self)@->Some_0.tickets_sold + 1) as u32,
                ..old(self)@->Some_0
            });
        }
        Ok(())
    }

    /// Takes the ticket of `guest` back; for the host and cohosts. The
    /// balance is left as it is.
    pub fn remove_guest(&mut self, guest: String, caller: &String) -> (r: Result<(), ContractError>)
        requires
            old(self).wf(),
        ensures
            final(self).wf(),
            (final(self)@, r) == remove_guest_step(old(self)@, guest@, caller@),
            keeps_public(old(self)@, final(self)@),
    {
        if !self.initialized {
            return Err(ContractError::NotInitialized);
        }
        if !self.state.is_manager(caller) {
            return Err(ContractError::NotAuthorized);
        }
        match position_of(&self.state.guests, &guest) {
            None => Ok(()),
            Some(i) => {
                proof {
                    lemma_remove_id(self.state.guests@, i as int);
                    assert(ids(self.state.guests@)[i as int] == guest@);
                }
                self.state.guests.remove(i);
                self.state.tickets_sold = self.state.tickets_sold - 1;
                proof {
                    assert(self.state.model() == EventModel {
                        guests: old(self)@->Some_0.guests.remove(guest@),
                        tickets_sold: (old(self)@->Some_0.tickets_sold - 1) as u32,
                        ..old(self)@->Some_0
                    });
                }
                Ok(())
            },
        }
    }

    /// Releases the whole balance to the host; for the host and cohosts.
    pub fn pay_hosts(&mut self, caller: &String) -> (r: Result<Payout, ContractError>)
        requires
            old(self).wf(),
        ensures
            final(self).wf(),
            final(self)@ == pay_hosts_step(old(self)@, caller@).0,
            payout_view(r) == pay_hosts_step(old(self)@, caller@).1,
            keeps_public(old(self)@, final(self)@),
    {
        if !self.initialized {
            return Err(ContractError::NotInitialized);
        }
        if !self.state.is_manager(caller) {
            return Err(ContractError::NotAuthorized);
        }
        if self.state.balance == 0 {
            return Err(ContractError::NothingToPay);
        }
        let amount = self.state.balance;
        self.state.balance = 0;
        Ok(Payout { recipient: self.state.host.clone(), amount })
    }
}

impl EventContract {
    /// Creates the event, with `caller` as its host. Allowed once.
    pub fn initialize(&mut self, details: EventDetails, caller: &String) -> (r: Result<(), ContractError>)
        requires
            old(self).wf(),
        ensures
            final(self).wf(),
            (final(self)@, r) == initialize_step(old(self)@, details, caller@),
            keeps_public(old(self)@, final(self)@),
    {
        if self.initialized {
            return Err(ContractError::AlreadyInitialized);
        }
        self.state = EventState {
            host: caller.clone(),
            cohosts: Vec::new(),
            guests: Vec::new(),
            details,
            ticket_price: 0,
            max_tickets: 0,
            tickets_sold: 0,
            is_public: false,
            balance: 0,
        };
        self.initialized = true;
        proof {
            assert(id_set(self.state.cohosts@) =~= Set::empty());
            assert(id_set(self.state.guests@) =~= Set::empty());
            assert(ids(self.state.guests@) =~= Seq::empty());
            assert(ids(self.state.cohosts@) =~= Seq::empty());
        }
        Ok(())
    }

    /// The event as `caller` may see it: only a public event, or one that
    /// `caller` hosts, cohosts or holds a ticket for.
    pub fn get_event(&self, caller: &String) -> (r: Result<Event, ContractError>)
        requires
            self.wf(),
        ensures
            r == get_event_result(self@, caller@),
    {
        if !self.initialized {
            return Err(ContractError::NotInitialized);
        }
        if self.state.is_public || self.state.is_manager(caller) || contains_id(&self.state.guests, caller) {
            Ok(Event { public: self.state.is_public, details: self.state.details.copied() })
        } else {
            Err(ContractError::NotAuthorized)
        }
    }

    /// The host; refused before initialization.
    pub fn get_host(&self) -> (r: Result<String, ContractError>)
        ensures
            match self@ {
                Some(m) => r matches Ok(h) && h@ == m.host,
                None => r == Err::<String, ContractError>(ContractError::NotInitialized),
            },
    {
        if !self.initialized {
            return Err(ContractError::NotInitialized);
        }
        Ok(self.state.host.clone())
    }

    /// The cohosts, each once.
    pub fn get_cohosts(&self) -> (r: Result<Vec<String>, ContractError>)
        requires
            self.wf(),
        ensures
            match self@ {
                Some(m) => r matches Ok(v) && unique_ids(v@) && id_set(v@) == m.cohosts,
                None => r == Err::<Vec<String>, ContractError>(ContractError::NotInitialized),
            },
    {
        if !self.initialized {
            return Err(ContractError::NotInitialized);
        }
        Ok(copy_ids(&self.state.cohosts))
    }

    /// The event's details; refused before initialization.
    pub fn get_details(&self) -> (r: Result<EventDetails, ContractError>)
        ensures
            match self@ {
                Some(m) => r == Ok::<EventDetails, ContractError>(m.details),
                None => r == Err::<EventDetails, ContractError>(ContractError::NotInitialized),
            },
    {
        if !self.initialized {
            return Err(ContractError::NotInitialized);
        }
        Ok(self.state.details.copied())
    }

    /// The price of one ticket; refused before initialization.
    pub fn get_ticket_price(&self) -> (r: Result<u128, ContractError>)
        ensures
            match self@ {
                Some(m) => r == Ok::<u128, ContractError>(m.ticket_price),
                None => r == Err::<u128, ContractError>(ContractError::NotInitialized),
            },
    {
        if !self.initialized {
            return Err(ContractError::NotInitialized);
        }
        Ok(self.state.ticket_price)
    }

    /// The capacity; refused before initialization.
    pub fn get_max_tickets(&self) -> (r: Result<u32, ContractError>)
        ensures
            match self@ {
                Some(m) => r == Ok::<u32, ContractError>(m.max_tickets),
                None => r == Err::<u32, ContractError>(ContractError::NotInitialized),
            },
    {
        if !self.initialized {
            return Err(ContractError::NotInitialized);
        }
        Ok(self.state.max_tickets)
    }

    /// How many tickets are held; refused before initialization.
    pub fn get_tickets_sold(&self) -> (r: Result<u32, ContractError>)
        ensures
            match self@ {
                Some(m) => r == Ok::<u32, ContractError>(m.tickets_sold),
                None => r == Err::<u32, ContractError>(ContractError::NotInitialized),
            },
    {
        if !self.initialized {
            return Err(ContractError::NotInitialized);
        }
        Ok(self.state.tickets_sold)
    }

    /// The balance that ticket sales have gathered since the last payout.
    pub fn get_balance(&self) -> (r: Result<u128, ContractError>)
        ensures
            match self@ {
                Some(m) => r == Ok::<u128, ContractError>(m.balance),
                None => r == Err::<u128, ContractError>(ContractError::NotInitialized),
            },
    {
        if !self.initialized {
            return Err(ContractError::NotInitialized);
        }
        Ok(self.state.balance)
    }

    /// Whether `identity` holds a ticket; never, before initialization.
    pub fn has_ticket(&self, identity: &String) -> (r: bool)
        ensures
            r == holds_ticket(self@, identity@),
    {
        self.initialized && contains_id(&self.state.guests, identity)
    }

    /// Makes `cohost` a cohost; for the host alone. The host itself, or a
    /// cohost already there, leaves the set as it is.
    pub fn add_cohost(&mut self, cohost: String, caller: &String) -> (r: Result<(), ContractError>)
        requires
            old(self).wf(),
        ensures
            final(self).wf(),
            (final(self)@, r) == add_cohost_step(old(self)@, cohost@, caller@),
            keeps_public(old(self)@, final(self)@),
    {
        if !self.initialized {
            return Err(ContractError::NotInitialized);
        }
        if *caller != self.state.host {
            return Err(ContractError::NotAuthorized);
        }
        if cohost == self.state.host {
            return Ok(());
        }
        if contains_id(&self.state.cohosts, &cohost) {
            proof {
                assert(old(self)@->Some_0.cohosts.insert(cohost@) =~= old(self)@->Some_0.cohosts);
            }
            return Ok(());
        }
        proof {
            lemma_push_id(self.state.cohosts@, cohost);
        }
        self.state.cohosts.push(cohost);
        proof {
            assert(self.state.model() == EventModel {
                cohosts: old(self)@->Some_0.cohosts.insert(cohost@),
                ..old(self)@->Some_0
            });
        }
        Ok(())
    }

    /// Takes `cohost` out of the cohosts; for the host alone.
    pub fn remove_cohost(&mut self, cohost: String, caller: &String) -> (r: Result<(), ContractError>)
        requires
            old(self).wf(),
        ensures
            final(self).wf(),
            (final(self)@, r) == remove_cohost_step(old(self)@, cohost@, caller@),
            keeps_public(old(self)@, final(self)@),
    {
        if !self.initialized {
            return Err(ContractError::NotInitialized);
        }
        if *caller != self.state.host {
            return Err(ContractError::NotAuthorized);
        }
        match position_of(&self.state.cohosts, &cohost) {
            None => {
                proof {
                    assert(old(self)@->Some_0.cohosts.remove(cohost@) =~= old(self)@->Some_0.cohosts);
                }
                Ok(())
            },
            Some(i) => {
                proof {
                    lemma_remove_id(self.state.cohosts@, i as int);
                    assert(ids(self.state.cohosts@)[i as int] == cohost@);
                }
                self.state.cohosts.remove(i);
                proof {
                    assert(self.state.model() == EventModel {
                        cohosts: old(self)@->Some_0.cohosts.remove(cohost@),
                        ..old(self)@->Some_0
                    });
                }
                Ok(())
            },
        }
    }

    /// Replaces the event's details; for the host and cohosts.
    pub fn set_details(&mut self, details: EventDetails, caller: &String) -> (r: Result<(), ContractError>)
        requires
            old(self).wf(),
        ensures
            final(self).wf(),
            (final(self)@, r) == set_details_step(old(self)@, details, caller@),
            keeps_public(old(self)@, final(self)@),
    {
        if !self.initialized {
            return Err(ContractError::NotInitialized);
        }
        if !self.state.is_manager(caller) {
            return Err(ContractError::NotAuthorized);
        }
        self.state.details = details;
        Ok(())
    }

    /// Sets the capacity; for the host and cohosts, and never below the
    /// tickets already sold.
    pub fn set_max_tickets(&mut self, num: u32, caller: &String) -> (r: Result<(), ContractError>)
        requires
            old(self).wf(),
        ensures
            final(self).wf(),
            (final(self)@, r) == set_max_tickets_step(old(self)@, num, caller@),
            keeps_public(old(self)@, final(self)@),
    {
        if !self.initialized {
            return Err(ContractError::NotInitialized);
        }
        if !self.state.is_manager(caller) {
            return Err(ContractError::NotAuthorized);
        }
        if num < self.state.tickets_sold {
            return Err(ContractError::InvalidArgument);
        }
        self.state.max_tickets = num;
        Ok(())
    }

    /// Sets the ticket price; for the host and cohosts.
    pub fn set_ticket_price(&mut self, price: u128, caller: &String) -> (r: Result<(), ContractError>)
        requires
            old(self).wf(),
        ensures
            final(self).wf(),
            (final(self)@, r) == set_ticket_price_step(old(self)@, price, caller@),
            keeps_public(old(self)@, final(self)@),
    {
        if !self.initialized {
            return Err(ContractError::NotInitialized);
        }
        if !self.state.is_manager(caller) {
            return Err(ContractError::NotAuthorized);
        }
        self.state.ticket_price = price;
        Ok(())
    }

    /// Opens ticket sales to everyone; for the host and cohosts. There is no
    /// way back.
    pub fn go_public(&mut self, caller: &String) -> (r: Result<(), ContractError>)
        requires
            old(self).wf(),
        ensures
            final(self).wf(),
            (final(self)@, r) == go_public_step(old(self)@, caller@),
            keeps_public(old(self)@, final(self)@),
    {
        if !self.initialized {
            return Err(ContractError::NotInitialized);
        }
        if !self.state.is_manager(caller) {
            return Err(ContractError::NotAuthorized);
        }
        self.state.is_public = true;
        Ok(())
    }
}

} // verus!
