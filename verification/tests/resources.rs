use asterism::resources::{
    can_give, insert_pool, is_possible, InstantResources, PoolValues, QueuedResources,
    ResourceError, ResourceEvent, ResourceEventType, Transaction,
};
use asterism::{Event, Logic};

fn pool(val: i64, min: i64, max: i64) -> PoolValues<i64> {
    PoolValues { val, min, max }
}

fn purse() -> QueuedResources<&'static str> {
    let mut logic = QueuedResources::new();
    assert_eq!(insert_pool(&mut logic.items, "gold", pool(5, 0, 10)), None);
    assert_eq!(insert_pool(&mut logic.items, "keys", pool(1, 0, 3)), None);
    logic
}

#[test]
fn pool_is_put_in_place_of_one_with_its_name() {
    let mut logic = purse();
    assert_eq!(insert_pool(&mut logic.items, "gold", pool(7, 0, 10)), Some(pool(5, 0, 10)));
    assert_eq!(logic.items, vec![("gold", pool(7, 0, 10)), ("keys", pool(1, 0, 3))]);
    assert_eq!(logic.get_value_by_itemtype(&"gold"), Some(7));
    assert_eq!(logic.get_value_by_itemtype(&"keys"), Some(1));
    assert_eq!(logic.get_value_by_itemtype(&"gems"), None);
}

#[test]
fn change_must_leave_the_pool_within_its_bounds() {
    let logic = purse();
    assert_eq!(is_possible(&logic.items, &"gold", &Transaction::Change(5)), Ok(()));
    assert_eq!(
        is_possible(&logic.items, &"gold", &Transaction::Change(6)),
        Err(ResourceError::TooBig)
    );
    assert_eq!(is_possible(&logic.items, &"gold", &Transaction::Change(-5)), Ok(()));
    assert_eq!(
        is_possible(&logic.items, &"gold", &Transaction::Change(-6)),
        Err(ResourceError::TooSmall)
    );
    assert_eq!(
        is_possible(&logic.items, &"gems", &Transaction::Change(0)),
        Err(ResourceError::PoolNotFound)
    );
    assert_eq!(is_possible(&logic.items, &"gold", &Transaction::SetValue(99)), Ok(()));
    assert_eq!(
        is_possible(&logic.items, &"gold", &Transaction::Change(i64::MAX)),
        Err(ResourceError::TooBig)
    );
    assert_eq!(can_give(&logic.items, &"gold", 5), Ok(()));
    assert_eq!(can_give(&logic.items, &"gold", 6), Err(ResourceError::TooSmall));
    assert_eq!(can_give(&logic.items, &"gold", -6), Err(ResourceError::TooBig));
    assert_eq!(can_give(&logic.items, &"gold", i64::MIN), Err(ResourceError::TooBig));
    assert_eq!(can_give(&logic.items, &"gems", 0), Err(ResourceError::PoolNotFound));
}

#[test]
fn queued_transactions_are_applied_in_the_step() {
    let mut logic = purse();
    logic.handle_predicate(&("gold", Transaction::Change(3)));
    logic.handle_predicate(&("gold", Transaction::Change(3)));
    logic.handle_predicate(&("gems", Transaction::Change(1)));
    logic.handle_predicate(&("keys", Transaction::SetMax(9)));
    logic.handle_predicate(&("keys", Transaction::SetMin(-1)));
    logic.handle_predicate(&("keys", Transaction::SetValue(8)));
    assert_eq!(logic.transactions.len(), 6);
    assert_eq!(logic.get_value_by_itemtype(&"gold"), Some(5));
    logic.update();
    assert!(logic.transactions.is_empty());
    assert_eq!(logic.items, vec![("gold", pool(8, 0, 10)), ("keys", pool(8, -1, 9))]);
    let done = ResourceEventType::PoolUpdated;
    assert_eq!(
        logic.events().to_vec(),
        vec![
            ResourceEvent { pool: "gold", transaction: Transaction::Change(3), event_type: done },
            ResourceEvent {
                pool: "gold",
                transaction: Transaction::Change(3),
                event_type: ResourceEventType::TransactionUnsuccessful(ResourceError::TooBig),
            },
            ResourceEvent {
                pool: "gems",
                transaction: Transaction::Change(1),
                event_type: ResourceEventType::TransactionUnsuccessful(
                    ResourceError::PoolNotFound
                ),
            },
            ResourceEvent { pool: "keys", transaction: Transaction::SetMax(9), event_type: done },
            ResourceEvent { pool: "keys", transaction: Transaction::SetMin(-1), event_type: done },
            ResourceEvent { pool: "keys", transaction: Transaction::SetValue(8), event_type: done },
        ]
    );
    assert!(matches!(logic.events()[0].get_type(), ResourceEventType::PoolUpdated));
    logic.update();
    assert!(logic.events().is_empty());
}

#[test]
fn trade_moves_an_amount_between_pools() {
    let mut logic: QueuedResources<u8> = QueuedResources::new();
    insert_pool(&mut logic.items, 1, pool(5, 0, 10));
    insert_pool(&mut logic.items, 2, pool(8, 0, 10));
    logic.handle_predicate(&(1, Transaction::Trade(2, 2)));
    logic.handle_predicate(&(1, Transaction::Trade(1, 2)));
    logic.handle_predicate(&(1, Transaction::Trade(4, 2)));
    logic.handle_predicate(&(1, Transaction::Trade(1, 3)));
    logic.handle_predicate(&(2, Transaction::Trade(11, 1)));
    logic.handle_predicate(&(3, Transaction::Trade(0, 1)));
    logic.handle_predicate(&(2, Transaction::Trade(-3, 1)));
    logic.handle_predicate(&(1, Transaction::Trade(1, 1)));
    logic.update();
    // 5 - 2, 8 + 2; then the second pool is full; then 10 - (-3) is too much
    assert_eq!(logic.items, vec![(1, pool(3, 0, 10)), (2, pool(10, 0, 10))]);
    let failed = |pool: u8, transaction, err| ResourceEvent {
        pool,
        transaction,
        event_type: ResourceEventType::TransactionUnsuccessful(err),
    };
    assert_eq!(
        logic.events().to_vec(),
        vec![
            failed(1, Transaction::Trade(1, 2), ResourceError::TooBig),
            failed(1, Transaction::Trade(4, 2), ResourceError::TooSmall),
            failed(1, Transaction::Trade(1, 3), ResourceError::PoolNotFound),
            failed(2, Transaction::Trade(11, 1), ResourceError::TooSmall),
            failed(3, Transaction::Trade(0, 1), ResourceError::PoolNotFound),
            failed(2, Transaction::Trade(-3, 1), ResourceError::TooBig),
        ]
    );
}

#[test]
fn instant_transactions_are_applied_at_once() {
    let mut logic: InstantResources<char> = InstantResources::new();
    insert_pool(&mut logic.items, 'h', pool(3, 0, 5));
    logic.handle_predicate(&('h', Transaction::Change(2)));
    assert_eq!(logic.get_value_by_itemtype(&'h'), Some(5));
    logic.handle_predicate(&('h', Transaction::Change(1)));
    logic.handle_predicate(&('h', Transaction::SetValue(-4)));
    logic.handle_predicate(&('h', Transaction::Trade(1, 'x')));
    logic.handle_predicate(&('x', Transaction::SetMax(1)));
    assert_eq!(logic.items, vec![('h', pool(-4, 0, 5))]);
    let kinds: Vec<ResourceEventType> = logic.events().iter().map(|e| e.event_type).collect();
    assert_eq!(
        kinds,
        vec![
            ResourceEventType::PoolUpdated,
            ResourceEventType::TransactionUnsuccessful(ResourceError::TooBig),
            ResourceEventType::PoolUpdated,
            ResourceEventType::PoolUpdated,
            ResourceEventType::TransactionUnsuccessful(ResourceError::PoolNotFound),
        ]
    );
    assert_eq!(logic.get_value_by_itemtype(&'x'), None);
    logic.update();
    assert!(logic.events().is_empty());
    assert_eq!(logic.items, vec![('h', pool(-4, 0, 5))]);
}

#[test]
fn pools_are_changed_in_place_and_walked_in_order() {
    let mut logic = purse();
    logic.get_ident_data("keys").val = 2;
    assert_eq!(logic.get_value_by_itemtype(&"keys"), Some(2));
    let mut seen = Vec::new();
    let mut iter = logic.data_iter();
    while let Some((id, values)) = iter.next() {
        seen.push((id, values.val));
    }
    assert!(iter.next().is_none());
    assert_eq!(seen, vec![("gold", 5), ("keys", 2)]);

    let mut instant: InstantResources<u8> = InstantResources::new();
    insert_pool(&mut instant.items, 9, pool(1, 1, 1));
    instant.get_ident_data(9).max = 4;
    let mut iter = instant.data_iter();
    assert_eq!(iter.next(), Some((9, &pool(1, 1, 4))));
    assert_eq!(iter.next(), None);
}
