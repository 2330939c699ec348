//! Model registry: content-addressed base models and LoRA adapters bound to
//! a base model. An id names at most one artifact: never both a base model
//! and an adapter.

use vstd::prelude::*;

use crate::keymap::KeyMap;
use crate::primitives::{AccountId, BlockNumber, Origin, H256};

pub mod weights;

verus! {

/// Maximum length in bytes of a manifest URL.
pub const MAX_URL_LEN: u32 = 256;

/// Maximum length of a human-readable model name.
pub const MAX_NAME_LEN: u32 = 64;

#[derive(Clone, Copy, Debug, PartialEq, Eq, Structural)]
pub struct BaseModel {
    pub owner: AccountId,
    pub manifest_hash: H256,
    pub registered_at: BlockNumber,
    pub deprecated: bool,
}

#[derive(Clone, Copy, Debug, PartialEq, Eq, Structural)]
pub struct Adapter {
    pub owner: AccountId,
    pub base_model_id: H256,
    pub manifest_hash: H256,
    pub registered_at: BlockNumber,
    pub deprecated: bool,
}

#[derive(Clone, Copy, Debug, PartialEq, Eq, Structural)]
pub enum Event {
    BaseModelRegistered { id: H256, owner: AccountId },
    AdapterRegistered { id: H256, base_model_id: H256, owner: AccountId },
    Deprecated { id: H256 },
}

#[derive(Clone, Copy, Debug, PartialEq, Eq, Structural)]
pub enum Error {
    /// The origin is not the one the call requires.
    BadOrigin,
    AlreadyRegistered,
    UnknownModel,
    UnknownAdapter,
    NotOwner,
    IdCollision,
}

/// The pallet's storage.
pub struct Pallet {
    pub base_models: KeyMap<H256, BaseModel>,
    pub adapters: KeyMap<H256, Adapter>,
}

impl Pallet {
    /// The maps are well formed and no id is both a base model and an
    /// adapter.
    pub open spec fn wf(&self) -> bool {
        &&& self.base_models.wf()
        &&& self.adapters.wf()
        &&& forall|id: H256| #[trigger]
            self.base_models@.contains_key(id) ==> !self.adapters@.contains_key(id)
    }

    /// Every adapter is bound to a registered base model.
    pub open spec fn adapters_have_base(&self) -> bool {
        forall|id: H256| #[trigger]
            self.adapters@.contains_key(id) ==> self.base_models@.contains_key(self.adapters@[id].base_model_id)
    }

    pub fn new() -> (p: Pallet)
        ensures
            p.adapters_have_base(),
            p.wf(),
            p.base_models@ == Map::<H256, BaseModel>::empty(),
            p.adapters@ == Map::<H256, Adapter>::empty(),
    {
        Pallet { base_models: KeyMap::new(), adapters: KeyMap::new() }
    }

    pub fn base_model(&self, id: &H256) -> (r: Option<BaseModel>)
        requires
            self.wf(),
        ensures
            r == if self.base_models@.contains_key(*id) {
                Some(self.base_models@[*id])
            } else {
                None::<BaseModel>
            },
    {
        match self.base_models.get(id) {
            Some(m) => Some(*m),
            None => None,
        }
    }

    pub fn adapter(&self, id: &H256) -> (r: Option<Adapter>)
        requires
            self.wf(),
        ensures
            r == if self.adapters@.contains_key(*id) { Some(self.adapters@[*id]) } else { None::<Adapter> },
    {
        match self.adapters.get(id) {
            Some(a) => Some(*a),
            None => None,
        }
    }

    /// A signed account registers a base model under a fresh id.
    pub fn register_base_model(&mut self, origin: Origin, id: H256, manifest_hash: H256, now: BlockNumber) -> (r: Result<
        Event,
        Error,
    >)
        requires
            old(self).wf(),
        ensures
            old(self).adapters_have_base() ==> final(self).adapters_have_base(),
            final(self).wf(),
            r is Err ==> *final(self) == *old(self),
            match origin {
                Origin::Signed(who) => if old(self).base_models@.contains_key(id) {
                    r == Err::<Event, Error>(Error::AlreadyRegistered)
                } else if old(self).adapters@.contains_key(id) {
                    r == Err::<Event, Error>(Error::IdCollision)
                } else {
                    &&& r == Ok::<Event, Error>(Event::BaseModelRegistered { id, owner: who })
                    &&& final(self).base_models@ == old(self).base_models@.insert(
                        id,
                        BaseModel { owner: who, manifest_hash, registered_at: now, deprecated: false },
                    )
                    &&& final(self).adapters == old(self).adapters
                },
                _ => r == Err::<Event, Error>(Error::BadOrigin),
            },
    {
        let who = match origin.signer() {
            Some(who) => who,
            None => return Err(Error::BadOrigin),
        };
        if self.base_models.contains_key(&id) {
            return Err(Error::AlreadyRegistered);
        }
        if self.adapters.contains_key(&id) {
            return Err(Error::IdCollision);
        }
        self.base_models.insert(id, BaseModel { owner: who, manifest_hash, registered_at: now, deprecated: false });
        Ok(Event::BaseModelRegistered { id, owner: who })
    }

    /// A signed account registers an adapter of an existing base model under
    /// a fresh id.
    pub fn register_adapter(
        &mut self,
        origin: Origin,
        id: H256,
        base_model_id: H256,
        manifest_hash: H256,
        now: BlockNumber,
    ) -> (r: Result<Event, Error>)
        requires
            old(self).wf(),
        ensures
            old(self).adapters_have_base() ==> final(self).adapters_have_base(),
            final(self).wf(),
            r is Err ==> *final(self) == *old(self),
            match origin {
                Origin::Signed(who) => if !old(self).base_models@.contains_key(base_model_id) {
                    r == Err::<Event, Error>(Error::UnknownModel)
                } else if old(self).adapters@.contains_key(id) {
                    r == Err::<Event, Error>(Error::AlreadyRegistered)
                } else if old(self).base_models@.contains_key(id) {
                    r == Err::<Event, Error>(Error::IdCollision)
                } else {
                    &&& r == Ok::<Event, Error>(Event::AdapterRegistered { id, base_model_id, owner: who })
                    &&& final(self).adapters@ == old(self).adapters@.insert(
                        id,
                        Adapter { owner: who, base_model_id, manifest_hash, registered_at: now, deprecated: false },
                    )
                    &&& final(self).base_models == old(self).base_models
                },
                _ => r == Err::<Event, Error>(Error::BadOrigin),
            },
    {
        let who = match origin.signer() {
            Some(who) => who,
            None => return Err(Error::BadOrigin),
        };
        if !self.base_models.contains_key(&base_model_id) {
            return Err(Error::UnknownModel);
        }
        if self.adapters.contains_key(&id) {
            return Err(Error::AlreadyRegistered);
        }
        if self.base_models.contains_key(&id) {
            return Err(Error::IdCollision);
        }
        self.adapters.insert(
            id,
            Adapter { owner: who, base_model_id, manifest_hash, registered_at: now, deprecated: false },
        );
        Ok(Event::AdapterRegistered { id, base_model_id, owner: who })
    }

    /// The owner marks the base model or adapter with this id deprecated.
    pub fn deprecate(&mut self, origin: Origin, id: H256) -> (r: Result<Event, Error>)
        requires
            old(self).wf(),
        ensures
            old(self).adapters_have_base() ==> final(self).adapters_have_base(),
            final(self).wf(),
            r is Err ==> *final(self) == *old(self),
            match origin {
                Origin::Signed(who) => if old(self).base_models@.contains_key(id) && old(self).base_models@[id].owner
                    != who {
                    r == Err::<Event, Error>(Error::NotOwner)
                } else if old(self).adapters@.contains_key(id) && old(self).adapters@[id].owner != who {
                    r == Err::<Event, Error>(Error::NotOwner)
                } else if !old(self).base_models@.contains_key(id) && !old(self).adapters@.contains_key(id) {
                    r == Err::<Event, Error>(Error::UnknownModel)
                } else {
                    &&& r == Ok::<Event, Error>(Event::Deprecated { id })
                    &&& final(self).base_models@ == if old(self).base_models@.contains_key(id) {
                        old(self).base_models@.insert(id, BaseModel { deprecated: true, ..old(self).base_models@[id] })
                    } else {
                        old(self).base_models@
                    }
                    &&& final(self).adapters@ == if old(self).adapters@.contains_key(id) {
                        old(self).adapters@.insert(id, Adapter { deprecated: true, ..old(self).adapters@[id] })
                    } else {
                        old(self).adapters@
                    }
                },
                _ => r == Err::<Event, Error>(Error::BadOrigin),
            },
    {
        let who = match origin.signer() {
            Some(who) => who,
            None => return Err(Error::BadOrigin),
        };
        let base = match self.base_models.get(&id) {
            Some(m) => Some(*m),
            None => None,
        };
        let adapter = match self.adapters.get(&id) {
            Some(a) => Some(*a),
            None => None,
        };
        if let Some(m) = base {
            if m.owner != who {
                return Err(Error::NotOwner);
            }
        }
        if let Some(a) = adapter {
            if a.owner != who {
                return Err(Error::NotOwner);
            }
        }
        if base.is_none() && adapter.is_none() {
            return Err(Error::UnknownModel);
        }
        if let Some(m) = base {
            self.base_models.insert(id, BaseModel { deprecated: true, ..m });
        }
        if let Some(a) = adapter {
            self.adapters.insert(id, Adapter { deprecated: true, ..a });
        }
        Ok(Event::Deprecated { id })
    }
}

} // verus!
