use vstd::prelude::*;

use crate::types::{Amount, Client, Tx};

verus! {

/// All the interactions of a client with the payment system.
#[derive(Debug, Clone, Copy, PartialEq, Eq, Structural)]
pub enum Event {
    /// Chargeback as the outcome of a dispute.
    Chargeback { client: Client, tx: Tx },
    /// Deposit transaction.
    Deposit { client: Client, tx: Tx, amount: Amount },
    /// Dispute init.
    Dispute { client: Client, tx: Tx },
    /// Dispute resolve.
    Resolve { client: Client, tx: Tx },
    /// Withdrawal transaction.
    Withdrawal { client: Client, tx: Tx, amount: Amount },
}

/// The kinds of [`Event`], without their data.
#[derive(Debug, Clone, Copy, PartialEq, Eq, Structural)]
pub enum EventType {
    Chargeback,
    Deposit,
    Dispute,
    Resolve,
    Withdrawal,
}

/// An event as one flat record, the shape of a row of the event log: the
/// amount is there for deposits and withdrawals only.
#[derive(Debug, Clone, Copy, PartialEq, Eq, Structural)]
pub struct RawEvent {
    pub ty: EventType,
    pub client: Client,
    pub tx: Tx,
    pub amount: Option<Amount>,
}

/// A deposit or withdrawal record without an amount.
#[derive(Debug, Clone, Copy, PartialEq, Eq, Structural)]
pub struct MissingAmount {
    pub ty: EventType,
    pub tx: Tx,
}

impl Event {
    pub open spec fn spec_client(self) -> Client {
        match self {
            Event::Chargeback { client, .. } => client,
            Event::Deposit { client, .. } => client,
            Event::Dispute { client, .. } => client,
            Event::Resolve { client, .. } => client,
            Event::Withdrawal { client, .. } => client,
        }
    }

    pub open spec fn spec_tx(self) -> Tx {
        match self {
            Event::Chargeback { tx, .. } => tx,
            Event::Deposit { tx, .. } => tx,
            Event::Dispute { tx, .. } => tx,
            Event::Resolve { tx, .. } => tx,
            Event::Withdrawal { tx, .. } => tx,
        }
    }

    pub open spec fn spec_type(self) -> EventType {
        match self {
            Event::Chargeback { .. } => EventType::Chargeback,
            Event::Deposit { .. } => EventType::Deposit,
            Event::Dispute { .. } => EventType::Dispute,
            Event::Resolve { .. } => EventType::Resolve,
            Event::Withdrawal { .. } => EventType::Withdrawal,
        }
    }

    /// The amount of a deposit or a withdrawal; `None` for the others.
    pub open spec fn spec_amount(self) -> Option<Amount> {
        match self {
            Event::Deposit { amount, .. } => Some(amount),
            Event::Withdrawal { amount, .. } => Some(amount),
            _ => None,
        }
    }

    /// Reads an event from its flat record. A deposit or a withdrawal
    /// without an amount is refused; an amount on any other kind is ignored.
    pub fn try_from(raw: RawEvent) -> (r: Result<Event, MissingAmount>)
        ensures
            match r {
                Ok(e) => {
                    &&& e.spec_type() == raw.ty
                    &&& e.spec_client() == raw.client
                    &&& e.spec_tx() == raw.tx
                    &&& (e.spec_amount() is Some ==> e.spec_amount() == raw.amount)
                },
                Err(m) => m == MissingAmount { ty: raw.ty, tx: raw.tx },
            },
            r is Err <==> ((raw.ty == EventType::Deposit || raw.ty == EventType::Withdrawal)
                && raw.amount is None),
    {
        match raw.ty {
            EventType::Chargeback => Ok(Event::Chargeback { client: raw.client, tx: raw.tx }),
            EventType::Dispute => Ok(Event::Dispute { client: raw.client, tx: raw.tx }),
            EventType::Resolve => Ok(Event::Resolve { client: raw.client, tx: raw.tx }),
            EventType::Deposit => match raw.amount {
                Some(amount) => Ok(Event::Deposit { client: raw.client, tx: raw.tx, amount }),
                None => Err(MissingAmount { ty: raw.ty, tx: raw.tx }),
            },
            EventType::Withdrawal => match raw.amount {
                Some(amount) => Ok(Event::Withdrawal { client: raw.client, tx: raw.tx, amount }),
                None => Err(MissingAmount { ty: raw.ty, tx: raw.tx }),
            },
        }
    }
}

impl RawEvent {
    /// The flat record of an event.
    pub open spec fn spec_from(event: Event) -> RawEvent {
        RawEvent {
            ty: event.spec_type(),
            client: event.spec_client(),
            tx: event.spec_tx(),
            amount: event.spec_amount(),
        }
    }
}

impl From<Event> for RawEvent {
    fn from(event: Event) -> (r: RawEvent) {
        match event {
            Event::Chargeback { client, tx } => RawEvent {
                ty: EventType::Chargeback,
                client,
                tx,
                amount: None,
            },
            Event::Dispute { client, tx } => RawEvent {
                ty: EventType::Dispute,
                client,
                tx,
                amount: None,
            },
            Event::Resolve { client, tx } => RawEvent {
                ty: EventType::Resolve,
                client,
                tx,
                amount: None,
            },
            Event::Deposit { client, tx, amount } => RawEvent {
                ty: EventType::Deposit,
                client,
                tx,
                amount: Some(amount),
            },
            Event::Withdrawal { client, tx, amount } => RawEvent {
                ty: EventType::Withdrawal,
                client,
                tx,
                amount: Some(amount),
            },
        }
    }
}

impl vstd::std_specs::convert::FromSpecImpl<Event> for RawEvent {
    open spec fn obeys_from_spec() -> bool {
        true
    }

    open spec fn from_spec(event: Event) -> RawEvent {
        RawEvent::spec_from(event)
    }
}

/// The event of kind `event_type` for `client` in the event log's slot
/// `tx`: deposits and withdrawals carry `amount` under `tx`; disputes,
/// resolves and chargebacks refer to the earlier transaction `earlier_tx`.
pub fn generate_event(
    event_type: EventType,
    client: Client,
    tx: Tx,
    amount: Amount,
    earlier_tx: Tx,
) -> (r: Event)
    ensures
        r.spec_type() == event_type,
        r.spec_client() == client,
        r.spec_tx() == if event_type == EventType::Deposit || event_type == EventType::Withdrawal {
            tx
        } else {
            earlier_tx
        },
        r.spec_amount() == if event_type == EventType::Deposit || event_type
            == EventType::Withdrawal {
            Some(amount)
        } else {
            None::<Amount>
        },
{
    match event_type {
        EventType::Deposit => Event::Deposit { client, tx, amount },
        EventType::Withdrawal => Event::Withdrawal { client, tx, amount },
        EventType::Dispute => Event::Dispute { client, tx: earlier_tx },
        EventType::Resolve => Event::Resolve { client, tx: earlier_tx },
        EventType::Chargeback => Event::Chargeback { client, tx: earlier_tx },
    }
}

} // verus!
