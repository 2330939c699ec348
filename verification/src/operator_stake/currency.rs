//! The handle through which the pallets use the runtime's currency. Every
//! call made through it is recorded, with its arguments, in the handle's
//! view, so contracts can say exactly what was asked of the currency.

use vstd::prelude::*;

use super::ReservableCurrency;
use crate::primitives::{AccountId, Balance};

verus! {

/// A request made to the currency.
#[derive(Clone, Copy, Debug, PartialEq, Eq, Structural)]
pub enum CurrencyCall {
    Reserve { who: AccountId, amount: Balance },
    Unreserve { who: AccountId, amount: Balance },
    SlashReserved { who: AccountId, amount: Balance },
}

/// The runtime's currency, with the calls made through this handle.
pub struct CurrencyHandle<C> {
    currency: C,
    calls: Ghost<Seq<CurrencyCall>>,
}

impl<C> View for CurrencyHandle<C> {
    type V = Seq<CurrencyCall>;

    /// The calls made through the handle, oldest first.
    closed spec fn view(&self) -> Seq<CurrencyCall> {
        self.calls@
    }
}

impl<C: ReservableCurrency> CurrencyHandle<C> {
    /// A handle on `currency` through which no call has been made yet.
    pub fn new(currency: C) -> (h: Self)
        ensures
            h@ == Seq::<CurrencyCall>::empty(),
    {
        CurrencyHandle { currency, calls: Ghost(Seq::empty()) }
    }

    /// The currency behind the handle.
    pub fn currency(&self) -> &C {
        &self.currency
    }

    /// Asks the currency to reserve `amount` of `who`'s free balance.
    pub fn reserve(&mut self, who: AccountId, amount: Balance) -> (r: Result<(), ()>)
        ensures
            final(self)@ == old(self)@.push(CurrencyCall::Reserve { who, amount }),
    {
        let r = self.currency.reserve(who, amount);
        proof {
            self.calls@ = self.calls@.push(CurrencyCall::Reserve { who, amount });
        }
        r
    }

    /// Asks the currency to release up to `amount` of `who`'s reserve;
    /// returns what it could not release.
    pub fn unreserve(&mut self, who: AccountId, amount: Balance) -> (r: Balance)
        ensures
            final(self)@ == old(self)@.push(CurrencyCall::Unreserve { who, amount }),
    {
        let r = self.currency.unreserve(who, amount);
        proof {
            self.calls@ = self.calls@.push(CurrencyCall::Unreserve { who, amount });
        }
        r
    }

    /// Asks the currency to burn up to `amount` of `who`'s reserve; returns
    /// what it could not burn.
    pub fn slash_reserved(&mut self, who: AccountId, amount: Balance) -> (r: Balance)
        ensures
            final(self)@ == old(self)@.push(CurrencyCall::SlashReserved { who, amount }),
    {
        let r = self.currency.slash_reserved(who, amount);
        proof {
            self.calls@ = self.calls@.push(CurrencyCall::SlashReserved { who, amount });
        }
        r
    }
}

} // verus!
