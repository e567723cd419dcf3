//! Extractor and resolver behaviour on statement syntax trees.

use pgdog::ast::{AConstValue, AExprKind, BoolExprType, Node, NullTestType};
use pgdog::key::Key;
use pgdog::mapper::{shard_for_keys, ShardingSchema};
use pgdog::route::{Route, Shard};
use pgdog::where_clause::WhereClause;

fn string_node(s: &str) -> Node {
    Node::StringVal { sval: s.to_string() }
}

fn column(name: &str) -> Node {
    Node::ColumnRef { fields: vec![string_node(name)] }
}

fn int_const(v: i32) -> Node {
    Node::AConst { val: AConstValue::Ival(v) }
}

fn str_const(v: &str) -> Node {
    Node::AConst { val: AConstValue::Sval(v.to_string()) }
}

fn param(n: i32) -> Node {
    Node::ParamRef { number: n }
}

fn a_expr(kind: AExprKind, op: &str, l: Node, r: Node) -> Node {
    Node::AExpr {
        kind,
        name: vec![string_node(op)],
        lexpr: Some(Box::new(l)),
        rexpr: Some(Box::new(r)),
    }
}

fn bool_expr(op: BoolExprType, args: Vec<Node>) -> Node {
    Node::BoolExpr { boolop: op, args }
}

fn null_test(t: NullTestType, arg: Node) -> Node {
    Node::NullTest { null_test_type: t, arg: Some(Box::new(arg)) }
}

#[test]
fn test_where_clause() {
    // WHERE id = 5 AND (something_else != 6 OR column_a = 'test')
    let where_clause = bool_expr(
        BoolExprType::AndExpr,
        vec![
            a_expr(AExprKind::Op, "=", column("id"), int_const(5)),
            bool_expr(
                BoolExprType::OrExpr,
                vec![
                    a_expr(AExprKind::Op, "!=", column("something_else"), int_const(6)),
                    a_expr(AExprKind::Op, "=", column("column_a"), str_const("test")),
                ],
            ),
        ],
    );
    let sharded = "sharded".to_string();
    let id = "id".to_string();
    let where_ = WhereClause::new(Some(&sharded), Some(&where_clause)).unwrap();
    let mut keys = where_.keys(Some(&sharded), &id);
    assert_eq!(
        keys.pop().unwrap(),
        Key::Constant {
            value: "5".into(),
            array: false
        }
    );
}

#[test]
fn test_is_null() {
    // WHERE tenant_id IS NULL
    let users = "users".to_string();
    let tenant_id = "tenant_id".to_string();
    let where_clause = null_test(NullTestType::IsNull, column("tenant_id"));
    let where_ = WhereClause::new(Some(&users), Some(&where_clause)).unwrap();
    assert_eq!(
        where_.keys(Some(&users), &tenant_id).pop(),
        Some(Key::Null)
    );

    // A NOT NULL check is basically everyone, so no!
    let where_clause = null_test(NullTestType::IsNotNull, column("tenant_id"));
    let where_ = WhereClause::new(Some(&users), Some(&where_clause)).unwrap();
    assert!(where_.keys(Some(&users), &tenant_id).is_empty());
}

#[test]
fn test_in_clause() {
    // WHERE tenant_id IN ($1, $2, $3, $4)
    let users = "users".to_string();
    let tenant_id = "tenant_id".to_string();
    let where_clause = a_expr(
        AExprKind::In,
        "=",
        column("tenant_id"),
        Node::List { items: vec![param(1), param(2), param(3), param(4)] },
    );
    let where_ = WhereClause::new(Some(&users), Some(&where_clause)).unwrap();
    let keys = where_.keys(Some(&users), &tenant_id);
    assert_eq!(keys.len(), 4);
    for (i, key) in keys.iter().enumerate() {
        assert_eq!(
            *key,
            Key::Parameter {
                pos: i,
                array: false
            }
        );
    }
}

#[test]
fn test_any() {
    // WHERE tenant_id = ANY($1)
    let users = "users".to_string();
    let tenant_id = "tenant_id".to_string();
    let where_clause = a_expr(AExprKind::OpAny, "=", column("tenant_id"), param(1));
    let where_ = WhereClause::new(Some(&users), Some(&where_clause)).unwrap();
    let keys = where_.keys(Some(&users), &tenant_id);
    assert_eq!(
        keys[0],
        Key::Parameter {
            pos: 0,
            array: true
        }
    );

    // WHERE tenant_id = ANY('{1, 2, 3}')
    let where_clause = a_expr(
        AExprKind::OpAny,
        "=",
        column("tenant_id"),
        str_const("{1, 2, 3}"),
    );
    let where_ = WhereClause::new(Some(&users), Some(&where_clause)).unwrap();
    let keys = where_.keys(Some(&users), &tenant_id);
    assert_eq!(
        keys[0],
        Key::Constant {
            value: "{1, 2, 3}".to_string(),
            array: true
        },
    );
}

#[test]
fn no_where_clause_yields_nothing() {
    let users = "users".to_string();
    assert!(WhereClause::new(Some(&users), None).is_none());
}

#[test]
fn top_level_or_yields_nothing() {
    // UPDATE orders SET paid = true WHERE customer_id = 42 OR customer_id = 43
    let orders = "orders".to_string();
    let customer_id = "customer_id".to_string();
    let where_clause = bool_expr(
        BoolExprType::OrExpr,
        vec![
            a_expr(AExprKind::Op, "=", column("customer_id"), int_const(42)),
            a_expr(AExprKind::Op, "=", column("customer_id"), int_const(43)),
        ],
    );
    let where_ = WhereClause::new(Some(&orders), Some(&where_clause)).unwrap();
    let keys = where_.keys(Some(&orders), &customer_id);
    assert!(keys.is_empty());

    // With no keys the mapper fans out, and an UPDATE is a write route.
    let schema = ShardingSchema {
        column: customer_id.clone(),
        num_shards: 4,
        null_shard: 0,
    };
    let params: Vec<String> = vec![];
    let shard = shard_for_keys(&keys, &params, &schema);
    assert_eq!(shard, Shard::All);
    let route = Route::write(shard);
    assert!(route.is_write());
    assert!(route.is_all_shards());
}

#[test]
fn reversed_equality_yields_same_keys() {
    // 5 = id resolves exactly as id = 5 does.
    let sharded = "sharded".to_string();
    let id = "id".to_string();
    let straight = a_expr(AExprKind::Op, "=", column("id"), int_const(5));
    let reversed = a_expr(AExprKind::Op, "=", int_const(5), column("id"));
    let keys_straight = WhereClause::new(Some(&sharded), Some(&straight))
        .unwrap()
        .keys(Some(&sharded), &id);
    let keys_reversed = WhereClause::new(Some(&sharded), Some(&reversed))
        .unwrap()
        .keys(Some(&sharded), &id);
    assert_eq!(keys_straight, keys_reversed);
    assert_eq!(
        keys_straight,
        vec![Key::Constant {
            value: "5".into(),
            array: false
        }]
    );
}

#[test]
fn cast_is_transparent() {
    // WHERE id = $1::bigint must not hide the parameter.
    let sharded = "sharded".to_string();
    let id = "id".to_string();
    let cast = Node::TypeCast { arg: Some(Box::new(param(1))) };
    let where_clause = a_expr(AExprKind::Op, "=", column("id"), cast);
    let where_ = WhereClause::new(Some(&sharded), Some(&where_clause)).unwrap();
    assert_eq!(
        where_.keys(Some(&sharded), &id),
        vec![Key::Parameter {
            pos: 0,
            array: false
        }]
    );
}

#[test]
fn qualified_column_must_match_table() {
    // WHERE other.id = 5 does not bind the key for table sharded.
    let sharded = "sharded".to_string();
    let id = "id".to_string();
    let qualified = Node::ColumnRef {
        fields: vec![string_node("other"), string_node("id")],
    };
    let where_clause = a_expr(AExprKind::Op, "=", qualified, int_const(5));
    let where_ = WhereClause::new(Some(&sharded), Some(&where_clause)).unwrap();
    assert!(where_.keys(Some(&sharded), &id).is_empty());
}

#[test]
fn non_equality_operator_yields_nothing() {
    // WHERE id < 5 binds nothing.
    let sharded = "sharded".to_string();
    let id = "id".to_string();
    let where_clause = a_expr(AExprKind::Op, "<", column("id"), int_const(5));
    let where_ = WhereClause::new(Some(&sharded), Some(&where_clause)).unwrap();
    assert!(where_.keys(Some(&sharded), &id).is_empty());
}
