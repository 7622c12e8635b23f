//! Resource logics.
//!
//! A resource logic says that resources can be made, used up, and passed from
//! one place to another. It keeps pools of whole amounts, each with a least and
//! a greatest value, changes them by transactions, and reports which
//! transactions went through.

use crate::graph::tells_apart;
use crate::{Event, EventType, Logic, Reaction};
use vstd::prelude::*;

verus! {

/// A pool: how much it holds, and the bounds that a change must keep.
#[derive(Copy, PartialEq, Eq, Debug)]
pub struct PoolValues<Value> {
    pub val: Value,
    pub min: Value,
    pub max: Value,
}

impl<Value: Copy> Clone for PoolValues<Value> {
    fn clone(&self) -> (values: Self)
        ensures
            values == *self,
    {
        *self
    }
}

/// A change to a pool.
#[derive(Copy, PartialEq, Eq, Debug)]
pub enum Transaction<Value, Ident> {
    /// Moves an amount from the pool to another pool.
    Trade(Value, Ident),
    /// Adds an amount to the pool; a negative amount is taken away.
    Change(Value),
    /// Sets what the pool holds.
    SetValue(Value),
    /// Sets the greatest value of the pool.
    SetMax(Value),
    /// Sets the least value of the pool.
    SetMin(Value),
}

impl<Value: Copy, Ident: Copy> Clone for Transaction<Value, Ident> {
    fn clone(&self) -> (transaction: Self)
        ensures
            transaction == *self,
    {
        *self
    }
}

/// Why a transaction did not go through.
#[derive(Clone, Copy, PartialEq, Eq, Structural, Debug)]
pub enum ResourceError {
    PoolNotFound,
    TooBig,
    TooSmall,
}

/// How a transaction ended.
#[derive(Clone, Copy, PartialEq, Eq, Structural, Debug)]
pub enum ResourceEventType {
    PoolUpdated,
    TransactionUnsuccessful(ResourceError),
}

/// A transaction on a pool, and how it ended.
#[derive(Copy, PartialEq, Eq, Debug)]
pub struct ResourceEvent<ID, Value> {
    pub pool: ID,
    pub transaction: Transaction<Value, ID>,
    pub event_type: ResourceEventType,
}

impl<ID: Copy, Value: Copy> Clone for ResourceEvent<ID, Value> {
    fn clone(&self) -> (event: Self)
        ensures
            event == *self,
    {
        *self
    }
}

/// A pool to change, and the change.
pub type ResourceReaction<ID, Value> = (ID, Transaction<Value, ID>);

/// Pools, each with its name. A name stands for the first pool that carries
/// it.
pub type Pools<ID> = Seq<(ID, PoolValues<i64>)>;

/// The first position in `pools`, from `from` on, of a pool named `id`; the
/// length of `pools` where there is none.
pub open spec fn first_pool<ID>(pools: Pools<ID>, id: ID, from: int) -> int
    decreases pools.len() - from,
{
    if from < 0 || from >= pools.len() {
        pools.len() as int
    } else if pools[from].0 == id {
        from
    } else {
        first_pool(pools, id, from + 1)
    }
}

/// There is a pool named `id`.
pub open spec fn has_pool<ID>(pools: Pools<ID>, id: ID) -> bool {
    first_pool(pools, id, 0) < pools.len()
}

/// The pool named `id`.
pub open spec fn pool_of<ID>(pools: Pools<ID>, id: ID) -> PoolValues<i64> {
    pools[first_pool(pools, id, 0)].1
}

/// `pools` with other values for the pool named `id`.
pub open spec fn with_pool<ID>(pools: Pools<ID>, id: ID, values: PoolValues<i64>) -> Pools<ID> {
    pools.update(first_pool(pools, id, 0), (id, values))
}

/// Whether a transaction can go through. A change must leave the pool within
/// its bounds; everything else needs only that the pool exists.
pub open spec fn spec_is_possible<ID>(
    pools: Pools<ID>,
    id: ID,
    transaction: Transaction<i64, ID>,
) -> Result<(), ResourceError> {
    if !has_pool(pools, id) {
        Err(ResourceError::PoolNotFound)
    } else {
        match transaction {
            Transaction::Change(amt) => {
                let pool = pool_of(pools, id);
                if pool.val + amt > pool.max {
                    Err(ResourceError::TooBig)
                } else if pool.val + amt < pool.min {
                    Err(ResourceError::TooSmall)
                } else {
                    Ok(())
                }
            },
            _ => Ok(()),
        }
    }
}

/// Whether an amount can be taken from a pool: whether the pool exists and
/// stays within its bounds.
pub open spec fn spec_can_give<ID>(pools: Pools<ID>, id: ID, amt: i64) -> Result<
    (),
    ResourceError,
> {
    if !has_pool(pools, id) {
        Err(ResourceError::PoolNotFound)
    } else {
        let pool = pool_of(pools, id);
        if pool.val - amt > pool.max {
            Err(ResourceError::TooBig)
        } else if pool.val - amt < pool.min {
            Err(ResourceError::TooSmall)
        } else {
            Ok(())
        }
    }
}

/// The pool after a transaction on it alone has gone through.
pub open spec fn changed_pool<ID>(pool: PoolValues<i64>, transaction: Transaction<i64, ID>) -> PoolValues<
    i64,
> {
    match transaction {
        Transaction::Change(amt) => PoolValues { val: (pool.val + amt) as i64, ..pool },
        Transaction::SetValue(amt) => PoolValues { val: amt, ..pool },
        Transaction::SetMax(new_max) => PoolValues { max: new_max, ..pool },
        Transaction::SetMin(new_min) => PoolValues { min: new_min, ..pool },
        Transaction::Trade(_, _) => pool,
    }
}

/// The event for a transaction that did not go through.
pub open spec fn failed<ID>(id: ID, transaction: Transaction<i64, ID>, err: ResourceError) -> ResourceEvent<
    ID,
    i64,
> {
    ResourceEvent {
        pool: id,
        transaction,
        event_type: ResourceEventType::TransactionUnsuccessful(err),
    }
}

/// The event for a transaction that went through.
pub open spec fn updated<ID>(id: ID, transaction: Transaction<i64, ID>) -> ResourceEvent<ID, i64> {
    ResourceEvent { pool: id, transaction, event_type: ResourceEventType::PoolUpdated }
}

/// What one queued transaction does to the pools, and the event that it
/// leaves, if any.
///
/// A trade goes through where the giving pool can spare the amount and the
/// receiving pool can take it, as both stand before the trade; it leaves no
/// event. Any other transaction that goes through leaves one. A transaction
/// that does not go through changes nothing and leaves an event with the
/// reason.
pub open spec fn queued_step<ID>(pools: Pools<ID>, id: ID, transaction: Transaction<i64, ID>) -> (
    Pools<ID>,
    Option<ResourceEvent<ID, i64>>,
) {
    match transaction {
        Transaction::Trade(amt, other) => match spec_can_give(pools, id, amt) {
            Err(err) => (pools, Some(failed(id, transaction, err))),
            Ok(()) => match spec_is_possible(pools, other, Transaction::Change(amt)) {
                Err(err) => (pools, Some(failed(id, transaction, err))),
                Ok(()) => {
                    let given = with_pool(
                        pools,
                        id,
                        PoolValues {
                            val: (pool_of(pools, id).val - amt) as i64,
                            ..pool_of(pools, id)
                        },
                    );
                    (
                        with_pool(
                            given,
                            other,
                            PoolValues {
                                val: (pool_of(given, other).val + amt) as i64,
                                ..pool_of(given, other)
                            },
                        ),
                        None,
                    )
                },
            },
        },
        _ => match spec_is_possible(pools, id, transaction) {
            Err(err) => (pools, Some(failed(id, transaction, err))),
            Ok(()) => (
                with_pool(pools, id, changed_pool(pool_of(pools, id), transaction)),
                Some(updated(id, transaction)),
            ),
        },
    }
}

/// The pools after the first `n` queued transactions.
pub open spec fn queued_pools<ID>(
    pools: Pools<ID>,
    transactions: Seq<(ID, Transaction<i64, ID>)>,
    n: int,
) -> Pools<ID>
    decreases n,
{
    if n <= 0 {
        pools
    } else {
        queued_step(
            queued_pools(pools, transactions, n - 1),
            transactions[n - 1].0,
            transactions[n - 1].1,
        ).0
    }
}

/// The events of the first `n` queued transactions.
pub open spec fn queued_events<ID>(
    pools: Pools<ID>,
    transactions: Seq<(ID, Transaction<i64, ID>)>,
    n: int,
) -> Seq<ResourceEvent<ID, i64>>
    decreases n,
{
    if n <= 0 {
        Seq::empty()
    } else {
        let before = queued_events(pools, transactions, n - 1);
        match queued_step(
            queued_pools(pools, transactions, n - 1),
            transactions[n - 1].0,
            transactions[n - 1].1,
        ).1 {
            Some(event) => before.push(event),
            None => before,
        }
    }
}

/// What one transaction does to the pools when it is applied at once, and the
/// event that it leaves. A trade changes nothing, and is reported as gone
/// through.
pub open spec fn instant_step<ID>(pools: Pools<ID>, id: ID, transaction: Transaction<i64, ID>) -> (
    Pools<ID>,
    ResourceEvent<ID, i64>,
) {
    match spec_is_possible(pools, id, transaction) {
        Err(err) => (pools, failed(id, transaction, err)),
        Ok(()) => (
            with_pool(pools, id, changed_pool(pool_of(pools, id), transaction)),
            updated(id, transaction),
        ),
    }
}

/// The first position in `items` of a pool named `id`, or `None`.
pub fn find_pool<ID: Copy + Eq>(items: &Vec<(ID, PoolValues<i64>)>, id: &ID) -> (at: Option<usize>)
    requires
        tells_apart::<ID>(),
    ensures
        match at {
            Some(k) => k < items@.len() && k == first_pool(items@, *id, 0) && has_pool(
                items@,
                *id,
            ),
            None => !has_pool(items@, *id),
        },
{
    let mut k: usize = 0;
    while k < items.len()
        invariant
            k <= items@.len(),
            tells_apart::<ID>(),
            first_pool(items@, *id, 0) == first_pool(items@, *id, k as int),
        decreases items@.len() - k,
    {
        if items[k].0 == *id {
            return Some(k);
        }
        k += 1;
    }
    None
}

/// The position of the pool named `id`, which exists.
pub fn pool_index<ID: Copy + Eq>(items: &Vec<(ID, PoolValues<i64>)>, id: &ID) -> (at: usize)
    requires
        tells_apart::<ID>(),
        has_pool(items@, *id),
    ensures
        at == first_pool(items@, *id, 0),
        at < items@.len(),
        items@[at as int].0 == *id,
{
    let n: usize = items.len();
    let mut k: usize = 0;
    loop
        invariant
            k < items@.len(),
            n == items@.len(),
            tells_apart::<ID>(),
            first_pool(items@, *id, 0) == first_pool(items@, *id, k as int),
            first_pool(items@, *id, 0) < items@.len(),
        decreases items@.len() - k,
    {
        if items[k].0 == *id {
            return k;
        }
        proof {
            lemma_first_pool(items@, *id, k + 1);
        }
        k += 1;
    }
}

/// Whether a transaction can go through.
pub fn is_possible<ID: Copy + Eq>(
    items: &Vec<(ID, PoolValues<i64>)>,
    item_type: &ID,
    transaction: &Transaction<i64, ID>,
) -> (possible: Result<(), ResourceError>)
    requires
        tells_apart::<ID>(),
    ensures
        possible == spec_is_possible(items@, *item_type, *transaction),
{
    match find_pool(items, item_type) {
        Some(at) => {
            let pool = items[at].1;
            match transaction {
                Transaction::Change(amt) => {
                    let sum: i128 = pool.val as i128 + *amt as i128;
                    if sum > pool.max as i128 {
                        Err(ResourceError::TooBig)
                    } else if sum < pool.min as i128 {
                        Err(ResourceError::TooSmall)
                    } else {
                        Ok(())
                    }
                },
                _ => Ok(()),
            }
        },
        None => Err(ResourceError::PoolNotFound),
    }
}

/// Whether an amount can be taken from a pool.
pub fn can_give<ID: Copy + Eq>(items: &Vec<(ID, PoolValues<i64>)>, item_type: &ID, amt: i64) -> (possible:
    Result<(), ResourceError>)
    requires
        tells_apart::<ID>(),
    ensures
        possible == spec_can_give(items@, *item_type, amt),
{
    match find_pool(items, item_type) {
        Some(at) => {
            let pool = items[at].1;
            let rest: i128 = pool.val as i128 - amt as i128;
            if rest > pool.max as i128 {
                Err(ResourceError::TooBig)
            } else if rest < pool.min as i128 {
                Err(ResourceError::TooSmall)
            } else {
                Ok(())
            }
        },
        None => Err(ResourceError::PoolNotFound),
    }
}

/// Applies to a pool a transaction that can go through.
pub fn change_pool<ID: Copy + Eq>(
    items: &mut Vec<(ID, PoolValues<i64>)>,
    id: ID,
    transaction: Transaction<i64, ID>,
)
    requires
        tells_apart::<ID>(),
        spec_is_possible(old(items)@, id, transaction).is_ok(),
    ensures
        final(items)@ == with_pool(
            old(items)@,
            id,
            changed_pool(pool_of(old(items)@, id), transaction),
        ),
{
    let at = pool_index(items, &id);
    let pool = items[at].1;
    let changed = match transaction {
        Transaction::Change(amt) => PoolValues { val: pool.val + amt, ..pool },
        Transaction::SetValue(amt) => PoolValues { val: amt, ..pool },
        Transaction::SetMax(new_max) => PoolValues { max: new_max, ..pool },
        Transaction::SetMin(new_min) => PoolValues { min: new_min, ..pool },
        Transaction::Trade(_, _) => pool,
    };
    items.set(at, (id, changed));
}

/// A resource logic that collects transactions and applies them all in its
/// step.
pub struct QueuedResources<ID: Copy + Ord> {
    /// The pools, each with its name.
    pub items: Vec<(ID, PoolValues<i64>)>,
    /// The transactions that wait for the next step, each with the pool that it
    /// is about.
    pub transactions: Vec<(ID, Transaction<i64, ID>)>,
    /// What became of the transactions of the last step.
    pub completed: Vec<ResourceEvent<ID, i64>>,
}

impl<ID: Copy + Ord> QueuedResources<ID> {
    /// A logic without pools.
    pub fn new() -> (logic: Self)
        ensures
            logic.items@.len() == 0,
            logic.transactions@.len() == 0,
            logic.completed@.len() == 0,
    {
        Self { items: Vec::new(), transactions: Vec::new(), completed: Vec::new() }
    }

    /// Takes a step: applies the queued transactions in order and empties the
    /// queue. A transaction that cannot go through changes nothing and is
    /// reported with the reason; those behind it are still applied.
    pub fn update(&mut self)
        requires
            tells_apart::<ID>(),
        ensures
            final(self).items@ == queued_pools(
                old(self).items@,
                old(self).transactions@,
                old(self).transactions@.len() as int,
            ),
            final(self).completed@ == queued_events(
                old(self).items@,
                old(self).transactions@,
                old(self).transactions@.len() as int,
            ),
            final(self).transactions@.len() == 0,
    {
        self.completed.clear();
        let n: usize = self.transactions.len();
        let mut k: usize = 0;
        while k < n
            invariant
                k <= n,
                n == self.transactions@.len(),
                tells_apart::<ID>(),
                self.transactions@ == old(self).transactions@,
                self.items@ == queued_pools(old(self).items@, old(self).transactions@, k as int),
                self.completed@ == queued_events(
                    old(self).items@,
                    old(self).transactions@,
                    k as int,
                ),
            decreases n - k,
        {
            let (id, transaction) = self.transactions[k];
            k += 1;
            if let Transaction::Trade(amt, other) = transaction {
                if let Err(err) = can_give(&self.items, &id, amt) {
                    self.completed.push(
                        ResourceEvent {
                            pool: id,
                            transaction,
                            event_type: ResourceEventType::TransactionUnsuccessful(err),
                        },
                    );
                    continue ;
                }
                if let Err(err) = is_possible(&self.items, &other, &Transaction::Change(amt)) {
                    self.completed.push(
                        ResourceEvent {
                            pool: id,
                            transaction,
                            event_type: ResourceEventType::TransactionUnsuccessful(err),
                        },
                    );
                    continue ;
                }
                let ghost before = self.items@;
                let giver = pool_index(&self.items, &id);
                let pool = self.items[giver].1;
                self.items.set(giver, (id, PoolValues { val: pool.val - amt, ..pool }));
                proof {
                    lemma_with_pool_keeps_names(
                        before,
                        id,
                        PoolValues {
                            val: (pool_of(before, id).val - amt) as i64,
                            ..pool_of(before, id)
                        },
                        other,
                    );
                }
                let taker = pool_index(&self.items, &other);
                let pool = self.items[taker].1;
                self.items.set(taker, (other, PoolValues { val: pool.val + amt, ..pool }));
                continue ;
            }
            if let Err(err) = is_possible(&self.items, &id, &transaction) {
                self.completed.push(
                    ResourceEvent {
                        pool: id,
                        transaction,
                        event_type: ResourceEventType::TransactionUnsuccessful(err),
                    },
                );
                continue ;
            }
            change_pool(&mut self.items, id, transaction);
            self.completed.push(
                ResourceEvent { pool: id, transaction, event_type: ResourceEventType::PoolUpdated },
            );
        }
        self.transactions.clear();
    }

    /// How much the pool named `item_type` holds, or `None` where there is no
    /// such pool.
    pub fn get_value_by_itemtype(&self, item_type: &ID) -> (value: Option<i64>)
        requires
            tells_apart::<ID>(),
        ensures
            value == if has_pool(self.items@, *item_type) {
                Some(pool_of(self.items@, *item_type).val)
            } else {
                None
            },
    {
        match find_pool(&self.items, item_type) {
            Some(at) => Some(self.items[at].1.val),
            None => None,
        }
    }
}

/// Puts a pool under a name: in place of the pool that the name stands for,
/// or behind the others where it stands for none. Returns the values that were
/// replaced.
pub fn insert_pool<ID: Copy + Eq>(
    items: &mut Vec<(ID, PoolValues<i64>)>,
    id: ID,
    values: PoolValues<i64>,
) -> (replaced: Option<PoolValues<i64>>)
    requires
        tells_apart::<ID>(),
    ensures
        replaced == if has_pool(old(items)@, id) {
            Some(pool_of(old(items)@, id))
        } else {
            None
        },
        final(items)@ == if has_pool(old(items)@, id) {
            with_pool(old(items)@, id, values)
        } else {
            old(items)@.push((id, values))
        },
        has_pool(final(items)@, id),
        pool_of(final(items)@, id) == values,
{
    let found = find_pool(items, &id);
    proof {
        lemma_first_pool(items@, id, 0);
        if found.is_some() {
            lemma_with_pool_keeps_names(items@, id, values, id);
        } else {
            lemma_first_pool_pushed(items@, (id, values), id, 0);
        }
    }
    match found {
        Some(at) => {
            let before = items[at].1;
            items.set(at, (id, values));
            Some(before)
        },
        None => {
            items.push((id, values));
            None
        },
    }
}

/// Takes out the pool that a name stands for, if it stands for one, and
/// returns its values.
pub fn remove_pool<ID: Copy + Eq>(items: &mut Vec<(ID, PoolValues<i64>)>, id: &ID) -> (removed: Option<
    PoolValues<i64>,
>)
    requires
        tells_apart::<ID>(),
    ensures
        removed == if has_pool(old(items)@, *id) {
            Some(pool_of(old(items)@, *id))
        } else {
            None
        },
        final(items)@ == if has_pool(old(items)@, *id) {
            old(items)@.remove(first_pool(old(items)@, *id, 0))
        } else {
            old(items)@
        },
{
    match find_pool(items, id) {
        Some(at) => Some(items.remove(at).1),
        None => None,
    }
}

/// The pool named `ident`, to change in place.
pub fn pool_mut<ID: Copy + Eq>(items: &mut Vec<(ID, PoolValues<i64>)>, ident: ID) -> (pool: &mut PoolValues<
    i64,
>)
    requires
        tells_apart::<ID>(),
        has_pool(old(items)@, ident),
    ensures
        *pool == pool_of(old(items)@, ident),
        final(items)@ == with_pool(old(items)@, ident, *final(pool)),
{
    let at = pool_index(items, &ident);
    let entry = &mut items[at];
    &mut entry.1
}

impl<ID: Copy + Eq, Value: Copy> Reaction for ResourceReaction<ID, Value> {

}

impl EventType for ResourceEventType {

}

impl<ID: Copy, Value: Copy> Event for ResourceEvent<ID, Value> {
    type EventType = ResourceEventType;

    fn get_type(&self) -> (kind: &ResourceEventType)
        ensures
            *kind == self.event_type,
    {
        &self.event_type
    }
}

impl<ID: Copy + Ord + 'static> Logic for QueuedResources<ID> {
    type Event = ResourceEvent<ID, i64>;

    type Reaction = ResourceReaction<ID, i64>;

    /// The name of a pool.
    type Ident = ID;

    type IdentData<'rsrc> = &'rsrc mut PoolValues<i64>;

    type DataIter<'iter> = RsrcDataIter<'iter, ID>;

    open spec fn wf(&self) -> bool {
        tells_apart::<ID>()
    }

    open spec fn has(&self, ident: ID) -> bool {
        has_pool(self.items@, ident)
    }

    /// Puts a transaction at the end of the queue.
    fn handle_predicate(&mut self, reaction: &ResourceReaction<ID, i64>)
        ensures
            final(self).items@ == old(self).items@,
            final(self).completed@ == old(self).completed@,
            final(self).transactions@ == old(self).transactions@.push(*reaction),
    {
        self.transactions.push(*reaction);
    }

    /// The pool named `ident`, to change in place.
    fn get_ident_data(&mut self, ident: ID) -> (pool: &mut PoolValues<i64>)
        ensures
            *pool == pool_of(old(self).items@, ident),
            final(self).items@ == with_pool(old(self).items@, ident, *final(pool)),
            final(self).transactions@ == old(self).transactions@,
            final(self).completed@ == old(self).completed@,
    {
        pool_mut(&mut self.items, ident)
    }

    /// A walk over the pools, in the order in which they were put in.
    fn data_iter(&mut self) -> (iter: RsrcDataIter<'_, ID>)
        ensures
            iter.pools() == old(self).items@,
            iter.position() == 0,
            *final(self) == *old(self),
    {
        RsrcDataIter { resources: &self.items, count: 0 }
    }

    /// What became of the transactions of the last step.
    fn events(&self) -> (events: &[ResourceEvent<ID, i64>])
        ensures
            events@ == self.completed@,
    {
        self.completed.as_slice()
    }
}

/// A walk over the pools of a resource logic.
pub struct RsrcDataIter<'iter, ID: Copy + Ord> {
    resources: &'iter Vec<(ID, PoolValues<i64>)>,
    count: usize,
}

impl<'iter, ID: Copy + Ord> RsrcDataIter<'iter, ID> {
    /// The pools that are walked over.
    pub closed spec fn pools(&self) -> Pools<ID> {
        self.resources@
    }

    /// The index of the pool that comes next.
    pub closed spec fn position(&self) -> nat {
        if self.count <= self.resources@.len() {
            self.count as nat
        } else {
            self.resources@.len()
        }
    }

    /// The next pool with its name, or `None` after the last one.
    pub fn next(&mut self) -> (item: Option<(ID, &PoolValues<i64>)>)
        ensures
            final(self).pools() == old(self).pools(),
            match item {
                Some((id, pool)) => {
                    &&& old(self).position() < old(self).pools().len()
                    &&& final(self).position() == old(self).position() + 1
                    &&& (id, *pool) == old(self).pools()[old(self).position() as int]
                },
                None => {
                    &&& old(self).position() == old(self).pools().len()
                    &&& final(self).position() == old(self).position()
                },
            },
    {
        if self.count >= self.resources.len() {
            None
        } else {
            self.count += 1;
            Some((self.resources[self.count - 1].0, &self.resources[self.count - 1].1))
        }
    }
}

/// A resource logic that applies each transaction as it arrives, and reports
/// it at once.
pub struct InstantResources<ID: Copy + Ord> {
    /// The pools, each with its name.
    pub items: Vec<(ID, PoolValues<i64>)>,
    /// What became of the transactions since the last step.
    pub completed: Vec<ResourceEvent<ID, i64>>,
}

impl<ID: Copy + Ord> InstantResources<ID> {
    /// A logic without pools.
    pub fn new() -> (logic: Self)
        ensures
            logic.items@.len() == 0,
            logic.completed@.len() == 0,
    {
        Self { items: Vec::new(), completed: Vec::new() }
    }

    /// Takes a step: forgets the events of the step before.
    pub fn update(&mut self)
        ensures
            final(self).items@ == old(self).items@,
            final(self).completed@.len() == 0,
    {
        self.completed.clear();
    }

    /// How much the pool named `item_type` holds, or `None` where there is no
    /// such pool.
    pub fn get_value_by_itemtype(&self, item_type: &ID) -> (value: Option<i64>)
        requires
            tells_apart::<ID>(),
        ensures
            value == if has_pool(self.items@, *item_type) {
                Some(pool_of(self.items@, *item_type).val)
            } else {
                None
            },
    {
        match find_pool(&self.items, item_type) {
            Some(at) => Some(self.items[at].1.val),
            None => None,
        }
    }
}

impl<ID: Copy + Ord + 'static> Logic for InstantResources<ID> {
    type Event = ResourceEvent<ID, i64>;

    type Reaction = ResourceReaction<ID, i64>;

    /// The name of a pool.
    type Ident = ID;

    type IdentData<'a> = &'a mut PoolValues<i64>;

    type DataIter<'a> = InstRsrcDataIter<'a, ID>;

    open spec fn wf(&self) -> bool {
        tells_apart::<ID>()
    }

    open spec fn has(&self, ident: ID) -> bool {
        has_pool(self.items@, ident)
    }

    /// Applies a transaction at once, and reports what became of it.
    fn handle_predicate(&mut self, reaction: &ResourceReaction<ID, i64>)
        ensures
            final(self).items@ == instant_step(old(self).items@, reaction.0, reaction.1).0,
            final(self).completed@ == old(self).completed@.push(
                instant_step(old(self).items@, reaction.0, reaction.1).1,
            ),
    {
        let (item_type, change) = *reaction;
        if let Err(err) = is_possible(&self.items, &item_type, &change) {
            self.completed.push(
                ResourceEvent {
                    pool: item_type,
                    transaction: change,
                    event_type: ResourceEventType::TransactionUnsuccessful(err),
                },
            );
            return ;
        }
        change_pool(&mut self.items, item_type, change);
        self.completed.push(
            ResourceEvent {
                pool: item_type,
                transaction: change,
                event_type: ResourceEventType::PoolUpdated,
            },
        );
    }

    /// The pool named `ident`, to change in place.
    fn get_ident_data(&mut self, ident: ID) -> (pool: &mut PoolValues<i64>)
        ensures
            *pool == pool_of(old(self).items@, ident),
            final(self).items@ == with_pool(old(self).items@, ident, *final(pool)),
            final(self).completed@ == old(self).completed@,
    {
        pool_mut(&mut self.items, ident)
    }

    /// A walk over the pools, in the order in which they were put in.
    fn data_iter(&mut self) -> (iter: InstRsrcDataIter<'_, ID>)
        ensures
            iter.pools() == old(self).items@,
            iter.position() == 0,
            *final(self) == *old(self),
    {
        InstRsrcDataIter { resources: &self.items, count: 0 }
    }

    /// What became of the transactions since the last step.
    fn events(&self) -> (events: &[ResourceEvent<ID, i64>])
        ensures
            events@ == self.completed@,
    {
        self.completed.as_slice()
    }
}

/// A walk over the pools of an instant resource logic.
pub struct InstRsrcDataIter<'iter, ID: Copy + Ord> {
    resources: &'iter Vec<(ID, PoolValues<i64>)>,
    count: usize,
}

impl<'iter, ID: Copy + Ord> InstRsrcDataIter<'iter, ID> {
    /// The pools that are walked over.
    pub closed spec fn pools(&self) -> Pools<ID> {
        self.resources@
    }

    /// The index of the pool that comes next.
    pub closed spec fn position(&self) -> nat {
        if self.count <= self.resources@.len() {
            self.count as nat
        } else {
            self.resources@.len()
        }
    }

    /// The next pool with its name, or `None` after the last one.
    pub fn next(&mut self) -> (item: Option<(ID, &PoolValues<i64>)>)
        ensures
            final(self).pools() == old(self).pools(),
            match item {
                Some((id, pool)) => {
                    &&& old(self).position() < old(self).pools().len()
                    &&& final(self).position() == old(self).position() + 1
                    &&& (id, *pool) == old(self).pools()[old(self).position() as int]
                },
                None => {
                    &&& old(self).position() == old(self).pools().len()
                    &&& final(self).position() == old(self).position()
                },
            },
    {
        if self.count >= self.resources.len() {
            None
        } else {
            self.count += 1;
            Some((self.resources[self.count - 1].0, &self.resources[self.count - 1].1))
        }
    }
}

/// A name that stands for no pool stands for the one that is put behind the
/// others under it.
pub proof fn lemma_first_pool_pushed<ID>(
    pools: Pools<ID>,
    entry: (ID, PoolValues<i64>),
    id: ID,
    from: int,
)
    requires
        0 <= from <= pools.len(),
        entry.0 == id,
        first_pool(pools, id, from) == pools.len(),
    ensures
        first_pool(pools.push(entry), id, from) == pools.len(),
    decreases pools.len() - from,
{
    if from < pools.len() {
        assert(pools.push(entry)[from] == pools[from]);
        lemma_first_pool_pushed(pools, entry, id, from + 1);
    }
}

/// Giving a pool other values does not change which pool a name stands for.
/// A pool of another name holds what it held; the pool itself holds the new
/// values.
pub proof fn lemma_with_pool_keeps_names<ID>(
    pools: Pools<ID>,
    id: ID,
    values: PoolValues<i64>,
    other: ID,
)
    requires
        has_pool(pools, id),
    ensures
        first_pool(with_pool(pools, id, values), other, 0) == first_pool(pools, other, 0),
        has_pool(with_pool(pools, id, values), other) == has_pool(pools, other),
        has_pool(pools, other) ==> pool_of(with_pool(pools, id, values), other) == if other
            == id {
            values
        } else {
            pool_of(pools, other)
        },
{
    let at = first_pool(pools, id, 0);
    lemma_first_pool(pools, id, 0);
    lemma_first_pool_same_names(pools, with_pool(pools, id, values), other, 0);
    lemma_first_pool(pools, other, 0);
}

/// `first_pool` returns the first position at or behind `from` that carries
/// the name, within the sequence or just behind it.
pub proof fn lemma_first_pool<ID>(pools: Pools<ID>, id: ID, from: int)
    requires
        0 <= from <= pools.len(),
    ensures
        from <= first_pool(pools, id, from) <= pools.len(),
        first_pool(pools, id, from) < pools.len() ==> pools[first_pool(pools, id, from)].0 == id,
        forall|k: int| from <= k < first_pool(pools, id, from) ==> (#[trigger] pools[k]).0 != id,
    decreases pools.len() - from,
{
    if from < pools.len() && pools[from].0 != id {
        lemma_first_pool(pools, id, from + 1);
    }
}

/// Where two sequences carry the same names at the same places, a name
/// stands for the same place in both.
pub proof fn lemma_first_pool_same_names<ID>(pools: Pools<ID>, others: Pools<ID>, id: ID, from: int)
    requires
        pools.len() == others.len(),
        forall|k: int| 0 <= k < pools.len() ==> (#[trigger] pools[k]).0 == others[k].0,
    ensures
        first_pool(pools, id, from) == first_pool(others, id, from),
    decreases pools.len() - from,
{
    if 0 <= from < pools.len() {
        assert(pools[from].0 == others[from].0);
        if pools[from].0 != id {
            lemma_first_pool_same_names(pools, others, id, from + 1);
        }
    }
}

} // verus!
