//! Oracle price feed: reporters push spot prices, at most one per block,
//! into a window of the most recent `TWAP_WINDOW` samples; the published
//! price is the window's median (the upper one for an even count), so a
//! single outlier moves it by at most one position.

use vstd::prelude::*;

use crate::primitives::{BlockNumber, Origin};
use crate::sorting::{upper_median, upper_median_of};

pub mod weights;

verus! {

/// Price in micro-USD per CUC.
pub type Price = u64;

/// Number of recent samples kept.
pub const TWAP_WINDOW: u32 = 240;

#[derive(Clone, Copy, Debug, PartialEq, Eq, Structural)]
pub enum Event {
    PriceSubmitted { price: Price },
    TwapUpdated { twap: Price },
}

#[derive(Clone, Copy, Debug, PartialEq, Eq, Structural)]
pub enum Error {
    /// The origin is not the one the call requires.
    BadOrigin,
    InvalidPrice,
    SubmissionRateLimited,
}

/// The pallet's storage.
pub struct Pallet {
    /// Recent samples, oldest first.
    pub samples: Vec<Price>,
    pub current_twap: Price,
    pub last_submission_block: BlockNumber,
}

/// The window after appending `price`, dropping the oldest sample when full.
pub open spec fn next_window(samples: Seq<Price>, price: Price) -> Seq<Price> {
    if samples.len() == TWAP_WINDOW {
        samples.drop_first().push(price)
    } else {
        samples.push(price)
    }
}

/// How many samples a window of `len` holds once one more price is
/// accepted: one more, up to `TWAP_WINDOW`.
pub open spec fn window_len_after(len: nat) -> nat {
    if len + 1 <= TWAP_WINDOW { len + 1 } else { TWAP_WINDOW as nat }
}

/// Law: the window after accepting `price` is the most recent prices in
/// submission order: the last `TWAP_WINDOW` (or all, if fewer) of the old
/// window followed by `price`. When the window is full, its oldest sample
/// is the one that leaves.
pub proof fn lemma_window_is_most_recent(samples: Seq<Price>, price: Price)
    requires
        samples.len() <= TWAP_WINDOW,
    ensures
        ({
            let history = samples.push(price);
            let w = next_window(samples, price);
            &&& w.len() == window_len_after(samples.len())
            &&& w == history.subrange(history.len() - w.len(), history.len() as int)
            &&& w.last() == price
            &&& samples.len() == TWAP_WINDOW ==> forall|i: int|
                0 <= i < TWAP_WINDOW - 1 ==> #[trigger] w[i] == samples[i + 1]
        }),
{
    let history = samples.push(price);
    let w = next_window(samples, price);
    assert(w =~= history.subrange(history.len() - w.len(), history.len() as int));
}

impl Pallet {
    pub open spec fn wf(&self) -> bool {
        self.samples@.len() <= TWAP_WINDOW
    }

    pub fn new() -> (p: Pallet)
        ensures
            p.wf(),
            p.samples@ == Seq::<Price>::empty(),
            p.current_twap == 0,
            p.last_submission_block == 0,
    {
        Pallet { samples: Vec::new(), current_twap: 0, last_submission_block: 0 }
    }

    /// A reporter (root) submits a positive price, at most once per block;
    /// the published price becomes the median of the updated window.
    pub fn submit_price(&mut self, origin: Origin, price: Price, now: BlockNumber) -> (r: Result<Vec<Event>, Error>)
        requires
            old(self).wf(),
        ensures
            origin is Root && price != 0 && now > old(self).last_submission_block ==> ({
                let history = old(self).samples@.push(price);
                let kept = window_len_after(old(self).samples@.len());
                final(self).samples@ == history.subrange(history.len() - kept, history.len() as int)
            }),
            final(self).wf(),
            r is Err ==> *final(self) == *old(self),
            !(origin is Root) ==> r == Err::<Vec<Event>, Error>(Error::BadOrigin),
            origin is Root && price == 0 ==> r == Err::<Vec<Event>, Error>(Error::InvalidPrice),
            origin is Root && price != 0 && now <= old(self).last_submission_block ==> r == Err::<
                Vec<Event>,
                Error,
            >(Error::SubmissionRateLimited),
            origin is Root && price != 0 && now > old(self).last_submission_block ==> ({
                let window = next_window(old(self).samples@, price);
                let twap = upper_median(window);
                &&& final(self).samples@ == window
                &&& final(self).current_twap == twap
                &&& final(self).last_submission_block == now
                &&& match r {
                    Ok(events) => events@ == seq![Event::PriceSubmitted { price }, Event::TwapUpdated { twap }],
                    Err(_) => false,
                }
            }),
    {
        if !origin.is_root() {
            return Err(Error::BadOrigin);
        }
        if price == 0 {
            return Err(Error::InvalidPrice);
        }
        if now <= self.last_submission_block {
            return Err(Error::SubmissionRateLimited);
        }
        self.last_submission_block = now;
        if self.samples.len() == TWAP_WINDOW as usize {
            self.samples.remove(0);
        }
        self.samples.push(price);
        proof {
            assert(self.samples@ =~= next_window(old(self).samples@, price));
            lemma_window_is_most_recent(old(self).samples@, price);
        }
        let twap = upper_median_of(&self.samples);
        self.current_twap = twap;
        let mut events: Vec<Event> = Vec::new();
        events.push(Event::PriceSubmitted { price });
        events.push(Event::TwapUpdated { twap });
        proof {
            assert(events@ =~= seq![Event::PriceSubmitted { price }, Event::TwapUpdated { twap }]);
        }
        Ok(events)
    }

    /// The published price.
    pub fn current_twap(&self) -> (p: Price)
        ensures
            p == self.current_twap,
    {
        self.current_twap
    }
}

} // verus!
