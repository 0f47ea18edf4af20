use vstd::prelude::*;

use crate::channel::ChannelActorState;
use crate::errors::ChannelError;
use crate::keys::{prefixed, CHANNEL_ACTOR_STATE_PREFIX};
use crate::store::{stored_channel_state, with_channel_state, Store};
use crate::types::{ChannelState, Hash256};

verus! {

/// The channels a node serves, each reached by its id.
pub struct ChannelRegistry {
    pub channels: Vec<ChannelActorState>,
}

pub open spec fn has_channel_id(cs: Seq<ChannelActorState>, id: Seq<u8>) -> bool {
    exists|i: int| 0 <= i < cs.len() && (#[trigger] cs[i]).id@ == id
}

/// The position of the channel with id `id`.
pub open spec fn channel_id_index(cs: Seq<ChannelActorState>, id: Seq<u8>) -> int {
    choose|i: int| 0 <= i < cs.len() && (#[trigger] cs[i]).id@ == id
}

/// Ids differ within one prefix only where the keys do.
proof fn lemma_prefixed_injective(a: u8, x: Seq<u8>, y: Seq<u8>)
    requires
        prefixed(a, x) == prefixed(a, y),
    ensures
        x == y,
{
    assert(prefixed(a, x).len() == x.len() + 1);
    assert(prefixed(a, y).len() == y.len() + 1);
    assert(x =~= prefixed(a, x).subrange(1, x.len() + 1 as int));
    assert(y =~= prefixed(a, y).subrange(1, y.len() + 1 as int));
}

/// Storing one channel leaves the stored state of another id as it was.
proof fn lemma_other_state_kept(m: Map<Seq<u8>, crate::store::StoredValue>, s: ChannelActorState, id: Seq<u8>)
    requires
        s.id@ != id,
    ensures
        stored_channel_state(with_channel_state(m, s), id) == stored_channel_state(m, id),
{
    let k = prefixed(CHANNEL_ACTOR_STATE_PREFIX, id);
    if k == prefixed(CHANNEL_ACTOR_STATE_PREFIX, s.id@) {
        lemma_prefixed_injective(CHANNEL_ACTOR_STATE_PREFIX, id, s.id@);
    }
    assert(k[0] != prefixed(crate::keys::PEER_ID_CHANNEL_ID_PREFIX, s.remote_peer_id@ + s.id@)[0]);
}

impl ChannelRegistry {
    /// Ids are unique and every channel is at rest.
    pub open spec fn wf(&self) -> bool {
        &&& forall|i: int, j: int|
            0 <= i < j < self.channels@.len() ==> (#[trigger] self.channels@[i]).id@
                != (#[trigger] self.channels@[j]).id@
        &&& forall|i: int| 0 <= i < self.channels@.len() ==> (#[trigger] self.channels@[i]).wf()
    }

    pub fn new() -> (r: ChannelRegistry)
        ensures
            r.wf(),
            r.channels@.len() == 0,
    {
        ChannelRegistry { channels: Vec::new() }
    }

    /// The position of channel `id`.
    pub fn find(&self, id: &Hash256) -> (r: Option<usize>)
        requires
            self.wf(),
        ensures
            r is None <==> !has_channel_id(self.channels@, id@),
            r is Some ==> r->Some_0 == channel_id_index(self.channels@, id@),
    {
        let mut i: usize = 0;
        while i < self.channels.len()
            invariant
                0 <= i <= self.channels@.len(),
                self.wf(),
                forall|j: int| 0 <= j < i ==> (#[trigger] self.channels@[j]).id@ != id@,
            decreases self.channels@.len() - i,
        {
            if self.channels[i].id.equals(id) {
                proof {
                    let k = channel_id_index(self.channels@, id@);
                    assert(self.channels@[i as int].id@ == id@);
                    if k != i {
                        if k < i {
                            assert(self.channels@[k].id@ != id@);
                        } else {
                            assert(self.channels@[i as int].id@ != self.channels@[k].id@);
                        }
                    }
                }
                return Some(i);
            }
            i = i + 1;
        }
        None
    }

    /// Starts serving a channel, or serves again one handed out by `take`.
    /// An id already served is refused.
    pub fn open(&mut self, state: ChannelActorState) -> (r: Result<(), ChannelError>)
        requires
            old(self).wf(),
            state.wf(),
        ensures
            final(self).wf(),
            has_channel_id(old(self).channels@, state.id@) ==> r == Err::<(), ChannelError>(
                ChannelError::InvalidParameter,
            ) && final(self).channels@ == old(self).channels@,
            !has_channel_id(old(self).channels@, state.id@) ==> r is Ok && final(self).channels@
                == old(self).channels@.push(state),
    {
        if self.find(&state.id).is_some() {
            return Err(ChannelError::InvalidParameter);
        }
        let ghost before = self.channels@;
        let ghost st = state;
        self.channels.push(state);
        proof {
            assert forall|i: int, j: int|
                0 <= i < j < self.channels@.len() implies (#[trigger] self.channels@[i]).id@
                    != (#[trigger] self.channels@[j]).id@ by {
                if j == before.len() {
                    assert(before[i].id@ != st.id@);
                }
            }
        }
        Ok(())
    }

    /// Hands out channel `id` for a command; `UnknownChannel` where no
    /// channel has that id.
    pub fn take(&mut self, id: &Hash256) -> (r: Result<ChannelActorState, ChannelError>)
        requires
            old(self).wf(),
        ensures
            final(self).wf(),
            !has_channel_id(old(self).channels@, id@) ==> r == Err::<ChannelActorState, ChannelError>(
                ChannelError::UnknownChannel,
            ) && final(self).channels@ == old(self).channels@,
            has_channel_id(old(self).channels@, id@) ==> {
                let k = channel_id_index(old(self).channels@, id@);
                &&& r == Ok::<ChannelActorState, ChannelError>(old(self).channels@[k])
                &&& final(self).channels@ == old(self).channels@.remove(k)
            },
            r is Ok ==> r->Ok_0.wf() && r->Ok_0.id@ == id@,
    {
        let k = match self.find(id) {
            Some(k) => k,
            None => {
                return Err(ChannelError::UnknownChannel);
            },
        };
        let ghost before = self.channels@;
        let c = self.channels.remove(k);
        proof {
            assert(has_channel_id(before, id@));
            assert forall|i: int, j: int|
                0 <= i < j < self.channels@.len() implies (#[trigger] self.channels@[i]).id@
                    != (#[trigger] self.channels@[j]).id@ by {
                let i0 = if i < k { i } else { i + 1 };
                let j0 = if j < k { j } else { j + 1 };
                assert(self.channels@[i] == before[i0]);
                assert(self.channels@[j] == before[j0]);
            }
            assert forall|i: int| 0 <= i < self.channels@.len() implies (#[trigger] self.channels@[i]).wf() by {
                let i0 = if i < k { i } else { i + 1 };
                assert(self.channels@[i] == before[i0]);
            }
        }
        Ok(c)
    }

    /// Stops serving every closed channel, after storing its final state.
    /// Returns how many were reaped.
    pub fn reap_closed(&mut self, store: &mut Store) -> (r: usize)
        requires
            old(self).wf(),
            old(store).wf(),
        ensures
            final(self).wf(),
            final(store).wf(),
            forall|i: int|
                0 <= i < final(self).channels@.len() ==> (#[trigger] final(self).channels@[i]).state
                    != ChannelState::Closed,
            forall|i: int|
                0 <= i < old(self).channels@.len() && (#[trigger] old(self).channels@[i]).state
                    != ChannelState::Closed ==> final(self).channels@.contains(old(self).channels@[i]),
            forall|i: int|
                0 <= i < old(self).channels@.len() && (#[trigger] old(self).channels@[i]).state
                    == ChannelState::Closed ==> stored_channel_state(
                    final(store)@,
                    old(self).channels@[i].id@,
                ) == Some(old(self).channels@[i]),
            r + final(self).channels@.len() == old(self).channels@.len(),
    {
        let ghost orig = self.channels@;
        let n = self.channels.len();
        let mut kept: Vec<ChannelActorState> = Vec::new();
        let mut reaped: usize = 0;
        let mut rest: Vec<ChannelActorState> = Vec::new();
        core::mem::swap(&mut rest, &mut self.channels);
        let ghost mut idx: Seq<int> = Seq::empty();
        let mut i: usize = 0;
        while rest.len() > 0
            invariant
                store.wf(),
                n == orig.len(),
                rest@ == orig.subrange(i as int, orig.len() as int),
                i <= orig.len(),
                reaped + kept@.len() == i,
                idx.len() == kept@.len(),
                forall|t: int| 0 <= t < idx.len() ==> 0 <= #[trigger] idx[t] < i && kept@[t] == orig[idx[t]],
                forall|x: int, y: int| 0 <= x < y < idx.len() ==> #[trigger] idx[x] < #[trigger] idx[y],
                forall|a: int, b: int|
                    0 <= a < b < orig.len() ==> (#[trigger] orig[a]).id@ != (#[trigger] orig[b]).id@,
                forall|a: int| 0 <= a < orig.len() ==> (#[trigger] orig[a]).wf(),
                forall|t: int|
                    0 <= t < kept@.len() ==> exists|a: int|
                        0 <= a < i && (#[trigger] kept@[t]) == orig[a],
                forall|t: int| 0 <= t < kept@.len() ==> (#[trigger] kept@[t]).state != ChannelState::Closed,
                forall|a: int|
                    0 <= a < i && (#[trigger] orig[a]).state != ChannelState::Closed ==> kept@.contains(orig[a]),
                forall|a: int|
                    0 <= a < i && (#[trigger] orig[a]).state == ChannelState::Closed ==> stored_channel_state(
                        store@,
                        orig[a].id@,
                    ) == Some(orig[a]),
            decreases rest@.len(),
        {
            let ghost before_rest = rest@;
            let ghost before_store = store@;
            let ghost before_kept = kept@;
            let c = rest.remove(0);
            assert(c == orig[i as int]);
            assert(rest@ =~= orig.subrange(i + 1, orig.len() as int));
            if c.state == ChannelState::Closed {
                let ghost cc = c;
                store.insert_channel_actor_state(c);
                reaped = reaped + 1;
                proof {
                    crate::store::lemma_channel_state_round_trip(before_store, cc);
                    assert forall|a: int|
                        0 <= a < i + 1 && (#[trigger] orig[a]).state == ChannelState::Closed
                            implies stored_channel_state(store@, orig[a].id@) == Some(orig[a]) by {
                        if a < i {
                            lemma_other_state_kept(before_store, cc, orig[a].id@);
                        }
                    }
                }
            } else {
                kept.push(c);
                proof {
                    idx = idx.push(i as int);
                    assert(kept@[kept@.len() - 1] == orig[i as int]);
                    assert forall|t: int| 0 <= t < kept@.len() implies exists|a: int|
                        0 <= a < i + 1 && (#[trigger] kept@[t]) == orig[a] by {
                        if t < before_kept.len() {
                            assert(kept@[t] == before_kept[t]);
                        } else {
                            assert(kept@[t] == orig[i as int]);
                        }
                    }
                    assert forall|a: int|
                        0 <= a < i + 1 && (#[trigger] orig[a]).state != ChannelState::Closed
                            implies kept@.contains(orig[a]) by {
                        if a < i {
                            let t = choose|t: int| 0 <= t < before_kept.len() && before_kept[t] == orig[a];
                            assert(kept@[t] == orig[a]);
                        } else {
                            assert(kept@[kept@.len() - 1] == orig[a]);
                        }
                    }
                }
            }
            i = i + 1;
        }
        self.channels = kept;
        proof {
            assert forall|x: int| 0 <= x < self.channels@.len() implies (#[trigger] self.channels@[x]).wf() by {
                assert(self.channels@[x] == orig[idx[x]]);
            }
            assert forall|x: int, y: int|
                0 <= x < y < self.channels@.len() implies (#[trigger] self.channels@[x]).id@
                    != (#[trigger] self.channels@[y]).id@ by {
                assert(idx[x] < idx[y]);
                assert(self.channels@[x] == orig[idx[x]]);
                assert(self.channels@[y] == orig[idx[y]]);
            }
        }
        reaped
    }
}

} // verus!
