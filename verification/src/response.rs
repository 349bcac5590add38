//! What a successful operation hands back to the host: attributes, an
//! append-only trail of events, and the transfer instructions the substrate
//! executes after the operation commits. The core only decides who is paid
//! how much; moving tokens is the substrate's work.

use vstd::prelude::*;

use crate::coin::{Coin, CoinV};

verus! {

/// The view of a list of key/value attribute pairs.
pub open spec fn pairs_view(s: Seq<(String, String)>) -> Seq<(Seq<char>, Seq<char>)> {
    s.map_values(|p: (String, String)| (p.0@, p.1@))
}

/// One audit-trail event: a type tag and its attributes.
#[derive(Debug, PartialEq)]
pub struct Event {
    pub ty: String,
    pub attributes: Vec<(String, String)>,
}

/// The mathematical image of an [`Event`].
#[verifier::ext_equal]
pub struct EventV {
    pub ty: Seq<char>,
    pub attributes: Seq<(Seq<char>, Seq<char>)>,
}

impl View for Event {
    type V = EventV;

    open spec fn view(&self) -> EventV {
        EventV { ty: self.ty@, attributes: pairs_view(self.attributes@) }
    }
}

/// One transfer instruction: an amount of coins owed to an address.
#[derive(Debug, PartialEq)]
pub struct BankTransfer {
    pub to_address: String,
    pub amount: Vec<Coin>,
}

/// The mathematical image of a [`BankTransfer`].
#[verifier::ext_equal]
pub struct BankTransferV {
    pub to_address: Seq<char>,
    pub amount: Seq<CoinV>,
}

impl View for BankTransfer {
    type V = BankTransferV;

    open spec fn view(&self) -> BankTransferV {
        BankTransferV {
            to_address: self.to_address@,
            amount: self.amount@.map_values(|c: Coin| c@),
        }
    }
}

/// What a committed operation reports: its attributes, the events of the
/// transition, and the transfers the substrate is to execute.
#[derive(Debug, PartialEq)]
pub struct Response {
    pub attributes: Vec<(String, String)>,
    pub events: Vec<Event>,
    pub messages: Vec<BankTransfer>,
}

/// The mathematical image of a [`Response`].
#[verifier::ext_equal]
pub struct ResponseV {
    pub attributes: Seq<(Seq<char>, Seq<char>)>,
    pub events: Seq<EventV>,
    pub messages: Seq<BankTransferV>,
}

impl View for Response {
    type V = ResponseV;

    open spec fn view(&self) -> ResponseV {
        ResponseV {
            attributes: pairs_view(self.attributes@),
            events: self.events@.map_values(|e: Event| e@),
            messages: self.messages@.map_values(|m: BankTransfer| m@),
        }
    }
}

} // verus!
