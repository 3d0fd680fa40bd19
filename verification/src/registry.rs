use vstd::prelude::*;

use crate::order::{Order, OrderView};
use crate::types::StoreError;

verus! {

/// One customer session: a globally unique id, assigned once at creation, and
/// an optional order. An absent order is a distinct state from an order with
/// zero items.
pub struct Call {
    pub id: u128,
    pub order: Option<Order>,
}

/// The mathematical value of a call.
pub struct CallView {
    pub id: u128,
    pub order: Option<OrderView>,
}

impl CallView {
    /// A call is well formed when its order, if present, is.
    pub open spec fn wf(&self) -> bool {
        match self.order {
            Some(o) => o.wf(),
            None => true,
        }
    }
}

impl View for Call {
    type V = CallView;

    open spec fn view(&self) -> CallView {
        CallView {
            id: self.id,
            order: match self.order {
                Some(o) => Some(o@),
                None => None,
            },
        }
    }
}

impl Clone for Call {
    fn clone(&self) -> (r: Self)
        ensures
            r@ == self@,
    {
        Call {
            id: self.id,
            order: match &self.order {
                Some(o) => Some(o.clone()),
                None => None,
            },
        }
    }
}

/// The first call of `s` bearing `id`, if any. With unique ids this is the
/// call keyed by `id`.
pub open spec fn lookup_call(s: Seq<Call>, id: u128) -> Option<Call>
    decreases s.len(),
{
    if s.len() == 0 {
        None
    } else if s[0].id == id {
        Some(s[0])
    } else {
        lookup_call(s.drop_first(), id)
    }
}

/// No two calls of `s` share an id.
pub open spec fn unique_ids(s: Seq<Call>) -> bool {
    forall|i: int, j: int| 0 <= i < j < s.len() ==> s[i].id != s[j].id
}

/// Every call of `s` is well formed.
pub open spec fn calls_wf(s: Seq<Call>) -> bool {
    forall|i: int| 0 <= i < s.len() ==> (#[trigger] s[i])@.wf()
}

/// When the first call bearing `id` stands at index `i`, that call is what
/// lookup finds.
pub proof fn lemma_lookup_call_at_index(s: Seq<Call>, id: u128, i: int)
    requires
        0 <= i < s.len(),
        s[i].id == id,
        forall|j: int| 0 <= j < i ==> s[j].id != id,
    ensures
        lookup_call(s, id) == Some(s[i]),
    decreases i,
{
    if i > 0 {
        assert forall|j: int| 0 <= j < i - 1 implies s.drop_first()[j].id != id by {
            assert(s.drop_first()[j] == s[j + 1]);
        }
        lemma_lookup_call_at_index(s.drop_first(), id, i - 1);
    }
}

/// Without a call bearing `id`, lookup finds nothing.
pub proof fn lemma_lookup_call_no_match(s: Seq<Call>, id: u128)
    requires
        forall|j: int| 0 <= j < s.len() ==> s[j].id != id,
    ensures
        lookup_call(s, id) is None,
    decreases s.len(),
{
    if s.len() > 0 {
        assert forall|j: int| 0 <= j < s.drop_first().len() implies s.drop_first()[j].id != id by {
            assert(s.drop_first()[j] == s[j + 1]);
        }
        lemma_lookup_call_no_match(s.drop_first(), id);
    }
}

/// Overwriting the first call bearing an id changes exactly that id's lookup
/// and no other.
proof fn lemma_lookup_call_update(s: Seq<Call>, i: int, c: Call, x: u128)
    requires
        0 <= i < s.len(),
        s[i].id == c.id,
        forall|j: int| 0 <= j < i ==> s[j].id != c.id,
    ensures
        lookup_call(s.update(i, c), x) == (if x == c.id {
            Some(c)
        } else {
            lookup_call(s, x)
        }),
    decreases i,
{
    if i == 0 {
        assert(s.update(0, c).drop_first() =~= s.drop_first());
    } else {
        assert(s.update(i, c).drop_first() =~= s.drop_first().update(i - 1, c));
        assert forall|j: int| 0 <= j < i - 1 implies s.drop_first()[j].id != c.id by {
            assert(s.drop_first()[j] == s[j + 1]);
        }
        lemma_lookup_call_update(s.drop_first(), i - 1, c, x);
    }
}

/// Appending a call under a fresh id changes exactly that id's lookup and no
/// other.
proof fn lemma_lookup_call_push(s: Seq<Call>, c: Call, x: u128)
    requires
        forall|j: int| 0 <= j < s.len() ==> s[j].id != c.id,
    ensures
        lookup_call(s.push(c), x) == (if x == c.id {
            Some(c)
        } else {
            lookup_call(s, x)
        }),
    decreases s.len(),
{
    if s.len() == 0 {
        assert(s.push(c).drop_first() =~= Seq::<Call>::empty());
    } else {
        assert(s.push(c).drop_first() =~= s.drop_first().push(c));
        assert forall|j: int| 0 <= j < s.drop_first().len() implies s.drop_first()[j].id
            != c.id by {
            assert(s.drop_first()[j] == s[j + 1]);
        }
        lemma_lookup_call_push(s.drop_first(), c, x);
    }
}

/// A found call is one of the stored calls, and bears the id it was found
/// under.
pub proof fn lemma_lookup_call_found(s: Seq<Call>, id: u128)
    requires
        lookup_call(s, id) is Some,
    ensures
        exists|i: int|
            0 <= i < s.len() && s[i] == lookup_call(s, id).unwrap() && s[i].id == id,
    decreases s.len(),
{
    if s.len() > 0 && s[0].id != id {
        lemma_lookup_call_found(s.drop_first(), id);
        let i = choose|i: int|
            0 <= i < s.drop_first().len() && s.drop_first()[i] == lookup_call(
                s.drop_first(),
                id,
            ).unwrap() && s.drop_first()[i].id == id;
        assert(s[i + 1] == s.drop_first()[i]);
    }
}

/// Index of the call bearing `id`, if any.
fn find_call_index(calls: &Vec<Call>, id: u128) -> (r: Option<usize>)
    ensures
        match r {
            Some(i) => i < calls@.len() && calls@[i as int].id == id && (forall|j: int|
                0 <= j < i ==> calls@[j].id != id),
            None => forall|j: int| 0 <= j < calls@.len() ==> calls@[j].id != id,
        },
{
    let mut j: usize = 0;
    while j < calls.len()
        invariant
            j <= calls@.len(),
            forall|t: int| 0 <= t < j ==> calls@[t].id != id,
        decreases calls@.len() - j,
    {
        if calls[j].id == id {
            return Some(j);
        }
        j = j + 1;
    }
    None
}

/// The registry of live calls, keyed by id. Calls are created and looked up;
/// none is ever removed.
pub struct CallRegistry {
    calls: Vec<Call>,
}

impl View for CallRegistry {
    type V = Seq<Call>;

    closed spec fn view(&self) -> Seq<Call> {
        self.calls@
    }
}

impl CallRegistry {
    /// Ids are unique and every stored call is well formed.
    pub open spec fn wf(&self) -> bool {
        unique_ids(self@) && calls_wf(self@)
    }

    /// The value of the call keyed by `id`, if any.
    pub open spec fn spec_lookup(&self, id: u128) -> Option<CallView> {
        match lookup_call(self@, id) {
            Some(c) => Some(c@),
            None => None,
        }
    }

    /// An empty registry.
    pub fn new() -> (r: CallRegistry)
        ensures
            r@ == Seq::<Call>::empty(),
            r.wf(),
            forall|x: u128| #[trigger] r.spec_lookup(x) is None,
    {
        CallRegistry { calls: Vec::new() }
    }

    /// In a well formed registry, a found call is well formed and bears the
    /// id it was found under.
    pub proof fn lemma_found_wf(&self, id: u128)
        requires
            self.wf(),
            self.spec_lookup(id) is Some,
        ensures
            self.spec_lookup(id).unwrap().wf(),
            self.spec_lookup(id).unwrap().id == id,
    {
        lemma_lookup_call_found(self@, id);
        let i = choose|i: int|
            0 <= i < self@.len() && self@[i] == lookup_call(self@, id).unwrap() && self@[i].id
                == id;
        assert(self@[i]@.wf());
    }

    /// Registers a new call under `id`, with no order yet. An id already
    /// present is rejected and the registry is left untouched.
    pub fn create_with_id(&mut self, id: u128) -> (r: Result<(), StoreError>)
        requires
            old(self).wf(),
        ensures
            final(self).wf(),
            old(self).spec_lookup(id) is None ==> r == Ok::<(), StoreError>(()) && (forall|x: u128|
                #[trigger] final(self).spec_lookup(x) == (if x == id {
                    Some((CallView { id, order: None }))
                } else {
                    old(self).spec_lookup(x)
                })),
            old(self).spec_lookup(id) is Some ==> r == Err::<(), StoreError>(
                StoreError::InvariantViolation,
            ) && *final(self) == *old(self),
    {
        let ghost pre = self.calls@;
        match find_call_index(&self.calls, id) {
            Some(i) => {
                proof {
                    lemma_lookup_call_at_index(pre, id, i as int);
                }
                Err(StoreError::InvariantViolation)
            },
            None => {
                proof {
                    lemma_lookup_call_no_match(pre, id);
                }
                let ghost c = Call { id, order: None };
                proof {
                    assert forall|x: u128|
                        lookup_call(pre.push(c), x) == (if x == id {
                            Some(c)
                        } else {
                            lookup_call(pre, x)
                        }) by {
                        lemma_lookup_call_push(pre, c, x);
                    }
                }
                self.calls.push(Call { id, order: None });
                Ok(())
            },
        }
    }

    /// Looks `id` up and hands back a copy of the call, if present.
    pub fn get(&self, id: u128) -> (r: Option<Call>)
        ensures
            match r {
                Some(c) => self.spec_lookup(id) == Some(c@),
                None => self.spec_lookup(id) is None,
            },
    {
        match find_call_index(&self.calls, id) {
            Some(i) => {
                proof {
                    lemma_lookup_call_at_index(self.calls@, id, i as int);
                }
                Some(self.calls[i].clone())
            },
            None => {
                proof {
                    lemma_lookup_call_no_match(self.calls@, id);
                }
                None
            },
        }
    }

    /// Replaces the order of the call keyed by `id`. An unknown id is
    /// rejected and the registry is left untouched.
    pub fn set_order(&mut self, id: u128, order: Option<Order>) -> (r: Result<(), StoreError>)
        requires
            old(self).wf(),
            match order {
                Some(o) => o@.wf(),
                None => true,
            },
        ensures
            final(self).wf(),
            old(self).spec_lookup(id) is Some ==> r == Ok::<(), StoreError>(()) && (forall|x: u128|
                #[trigger] final(self).spec_lookup(x) == (if x == id {
                    Some(
                        (CallView {
                            id,
                            order: match order {
                                Some(o) => Some(o@),
                                None => None,
                            },
                        }),
                    )
                } else {
                    old(self).spec_lookup(x)
                })),
            old(self).spec_lookup(id) is None ==> r == Err::<(), StoreError>(StoreError::NotFound)
                && *final(self) == *old(self),
    {
        let ghost pre = self.calls@;
        match find_call_index(&self.calls, id) {
            Some(i) => {
                proof {
                    lemma_lookup_call_at_index(pre, id, i as int);
                }
                let c = Call { id, order };
                proof {
                    assert forall|x: u128|
                        lookup_call(pre.update(i as int, c), x) == (if x == id {
                            Some(c)
                        } else {
                            lookup_call(pre, x)
                        }) by {
                        lemma_lookup_call_update(pre, i as int, c, x);
                    }
                    assert forall|a: int, b: int|
                        0 <= a < b < pre.update(i as int, c).len() implies pre.update(
                        i as int,
                        c,
                    )[a].id != pre.update(i as int, c)[b].id by {
                        assert(pre[a].id != pre[b].id);
                    }
                    assert forall|a: int|
                        0 <= a < pre.update(i as int, c).len() implies (#[trigger] pre.update(
                        i as int,
                        c,
                    )[a])@.wf() by {
                        assert(pre[a] == self.calls@[a]);
                    }
                }
                self.calls.set(i, c);
                Ok(())
            },
            None => {
                proof {
                    lemma_lookup_call_no_match(pre, id);
                }
                Err(StoreError::NotFound)
            },
        }
    }
}

} // verus!
