//! Route descriptor behaviour: read/write intent, shard targets and
//! post-processing directives.

use pgdog::directives::{
    Aggregate, AggregateFunction, AggregateTarget, ColumnTarget, Direction, DistinctBy,
    FunctionBehavior, Limit, LockingBehavior, NullsPlacement, OrderBy,
};
use pgdog::route::{Route, Shard};

fn order_by_entry() -> OrderBy {
    OrderBy {
        target: ColumnTarget::Name("created_at".to_string()),
        direction: Direction::Descending,
        nulls: NullsPlacement::Last,
    }
}

#[test]
fn all_is_true_only_for_all() {
    assert!(Shard::All.all());
    assert!(!Shard::Direct(0).all());
    assert!(!Shard::direct(3).all());
    assert!(!Shard::Multi(vec![0, 1]).all());
}

#[test]
fn shard_from_option() {
    assert_eq!(Shard::from(Some(4)), Shard::Direct(4));
    assert_eq!(Shard::from(None), Shard::All);
}

#[test]
fn read_and_write_are_opposites() {
    let read = Route::read(Shard::All);
    assert!(read.is_read());
    assert!(!read.is_write());

    let write = Route::write(Shard::Direct(1));
    assert!(write.is_write());
    assert!(!write.is_read());
    assert_eq!(*write.shard(), Shard::Direct(1));
}

#[test]
fn select_routes_to_replica_with_directives() {
    let route = Route::select(
        Shard::Direct(2),
        vec![order_by_entry()],
        Aggregate::default(),
        Limit::default(),
        None,
    );
    assert!(route.is_read());
    assert!(!route.is_all_shards());
    assert!(!route.is_cross_shard());
    assert_eq!(route.order_by().len(), 1);
    assert!(route.aggregate().is_empty());
    assert!(route.limit().limit.is_none());
    assert!(!route.lock_session());
}

#[test]
fn should_buffer_iff_directive_present() {
    let plain = Route::read(Shard::All);
    assert!(!plain.should_buffer());

    let ordered = Route::select(
        Shard::All,
        vec![order_by_entry()],
        Aggregate::default(),
        Limit::default(),
        None,
    );
    assert!(ordered.should_buffer());

    let aggregated = Route::select(
        Shard::All,
        vec![],
        Aggregate {
            targets: vec![AggregateTarget {
                column: 0,
                function: AggregateFunction::Count,
            }],
            group_by: vec![],
        },
        Limit::default(),
        None,
    );
    assert!(aggregated.should_buffer());

    let distinct = Route::select(
        Shard::All,
        vec![],
        Aggregate::default(),
        Limit::default(),
        Some(DistinctBy { columns: vec![ColumnTarget::Position(1)] }),
    );
    assert!(distinct.should_buffer());
}

#[test]
fn cross_shard_targets() {
    assert!(Route::read(Shard::All).is_all_shards());
    assert!(Route::read(Shard::All).is_cross_shard());
    let multi = Route::read(Shard::Multi(vec![0, 2]));
    assert!(multi.is_multi_shard());
    assert!(multi.is_cross_shard());
    assert!(!multi.is_all_shards());
}

#[test]
fn set_shard_overrides_target() {
    let route = Route::read(Shard::All).set_shard(5);
    assert_eq!(*route.shard(), Shard::Direct(5));
    assert!(route.is_read());

    let mut route = Route::write(Shard::All);
    route.set_shard_mut(1);
    assert_eq!(*route.shard(), Shard::Direct(1));
}

#[test]
fn set_read_flips_intent() {
    let route = Route::write(Shard::All).set_read(true);
    assert!(route.is_read());
    let mut route = Route::read(Shard::All);
    route.set_read_mut(false);
    assert!(route.is_write());
}

#[test]
fn function_behavior_sets_write_and_lock() {
    let writing_lock = FunctionBehavior {
        writes: true,
        locking_behavior: LockingBehavior::Lock,
    };
    let route = Route::read(Shard::All).set_write(writing_lock);
    assert!(route.is_write());
    assert!(route.lock_session());

    // A read-only advisory lock pins the session without forcing a write.
    let advisory = FunctionBehavior {
        writes: false,
        locking_behavior: LockingBehavior::Lock,
    };
    let mut route = Route::read(Shard::All);
    route.set_write_mut(advisory);
    assert!(route.is_read());
    assert!(route.lock_session());

    let plain = FunctionBehavior {
        writes: false,
        locking_behavior: LockingBehavior::Unlocked,
    };
    let route = Route::read(Shard::All).set_write(plain);
    assert!(route.is_read());
    assert!(!route.lock_session());
}

#[test]
fn shard_display_forms() {
    assert_eq!(Shard::All.display(), "all");
    assert_eq!(Shard::Direct(5).display(), "5");
    assert_eq!(Shard::Multi(vec![1, 2]).display(), "[1, 2]");
    assert_eq!(Shard::Multi(vec![7]).display(), "[7]");
}

#[test]
fn route_display_names_shard_and_role() {
    assert_eq!(Route::read(Shard::All).display(), "shard=all, role=replica");
    assert_eq!(
        Route::write(Shard::Direct(0)).display(),
        "shard=0, role=primary"
    );
}

#[test]
fn lock_session_is_idempotent() {
    let route = Route::read(Shard::All).set_lock_session().set_lock_session();
    assert!(route.lock_session());
}
