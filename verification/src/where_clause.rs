//! `WHERE` clause of an UPDATE/SELECT/DELETE statement.
//!
//! Two passes share one walk of the syntax tree: the *extractor* turns the
//! `WHERE` subtree into a list of [`Output`] trees of equality candidates,
//! and the *resolver* walks that list once per target sharding column to
//! collect the [`Key`] bindings that actually reference it.

use crate::ast::{AConstValue, AExprKind, BoolExprType, Node, NullTestType};
use crate::decimal::i32_to_string;
use crate::decimal::spec_int_string;
use crate::key::{
    key_opt_model, keys_model, lemma_keys_model_concat, lemma_keys_model_push, Column, ColumnModel,
    Key, KeyModel,
};
use vstd::prelude::*;

verus! {

/// One piece of the extractor's intermediate form: a value-like leaf, a
/// column, a null check, or a `Filter` pair holding the two sides of an
/// equality-shaped comparison.
#[derive(Debug)]
pub enum Output {
    Parameter { pos: i32, array: bool },
    Value { value: String, array: bool },
    Int { value: i32, array: bool },
    Column(Column),
    NullCheck(Column),
    Filter(Vec<Output>, Vec<Output>),
}

/// Spec-level form of one extractor output.
pub enum OutputModel {
    Parameter { pos: int, array: bool },
    Value { value: Seq<char>, array: bool },
    Int { value: int, array: bool },
    Column(ColumnModel),
    NullCheck(ColumnModel),
    Filter(Seq<OutputModel>, Seq<OutputModel>),
}

/// Model of one extractor output.
pub open spec fn output_model(o: Output) -> OutputModel
    decreases o,
{
    match o {
        Output::Parameter { pos, array } => OutputModel::Parameter { pos: pos as int, array },
        Output::Value { value, array } => OutputModel::Value { value: value@, array },
        Output::Int { value, array } => OutputModel::Int { value: value as int, array },
        Output::Column(c) => OutputModel::Column(c@),
        Output::NullCheck(c) => OutputModel::NullCheck(c@),
        Output::Filter(l, r) => OutputModel::Filter(outputs_model(l@), outputs_model(r@)),
    }
}

/// Element-wise model of a list of extractor outputs.
pub open spec fn outputs_model(s: Seq<Output>) -> Seq<OutputModel>
    decreases s,
{
    if s.len() == 0 {
        Seq::empty()
    } else {
        seq![output_model(s[0])] + outputs_model(s.skip(1))
    }
}

impl View for Output {
    type V = OutputModel;

    open spec fn view(&self) -> OutputModel {
        output_model(*self)
    }
}

proof fn lemma_outputs_model_len(s: Seq<Output>)
    ensures
        outputs_model(s).len() == s.len(),
    decreases s,
{
    if s.len() > 0 {
        lemma_outputs_model_len(s.skip(1));
    }
}

proof fn lemma_outputs_model_index(s: Seq<Output>, i: int)
    requires
        0 <= i < s.len(),
    ensures
        outputs_model(s).len() == s.len(),
        outputs_model(s)[i] == output_model(s[i]),
    decreases s,
{
    lemma_outputs_model_len(s);
    if i > 0 {
        lemma_outputs_model_index(s.skip(1), i - 1);
    }
}

proof fn lemma_outputs_model_concat(a: Seq<Output>, b: Seq<Output>)
    ensures
        outputs_model(a + b) == outputs_model(a) + outputs_model(b),
{
    lemma_outputs_model_len(a);
    lemma_outputs_model_len(b);
    lemma_outputs_model_len(a + b);
    assert forall|i: int| 0 <= i < a.len() + b.len() implies outputs_model(a + b)[i] == (
    outputs_model(a) + outputs_model(b))[i] by {
        lemma_outputs_model_index(a + b, i);
        if i < a.len() {
            lemma_outputs_model_index(a, i);
        } else {
            lemma_outputs_model_index(b, i - a.len());
        }
    }
    assert(outputs_model(a + b) =~= outputs_model(a) + outputs_model(b));
}

/// Model of the table-qualifier argument.
pub open spec fn table_model(t: Option<&String>) -> Option<Seq<char>> {
    match t {
        Some(s) => Some(s@),
        None => None,
    }
}

/// The string a bare string node carries, if it is one.
pub open spec fn spec_string_node(node: Node) -> Option<Seq<char>> {
    match node {
        Node::StringVal { sval } => Some(sval@),
        _ => None,
    }
}

/// True when an operator name is present and is anything but `=`: such a
/// comparison never binds a routing value.
pub open spec fn spec_op_rejected(name: Seq<Node>) -> bool {
    name.len() > 0 && (spec_string_node(name[0]) matches Some(op) && op != "="@)
}

/// What the extractor emits for one node of the `WHERE` subtree.
///
/// Only `AND` combinations are traversed; `OR` and `NOT` yield nothing, by
/// design, since routing under them would almost always fan out anyway.
/// Equality-shaped operator expressions become `Filter` pairs; literals,
/// placeholders and column references become leaves; casts are transparent;
/// `IS NULL` on a column becomes a null check; everything else is ignored.
pub open spec fn spec_parse(table: Option<Seq<char>>, node: Node, array: bool) -> Seq<OutputModel>
    decreases node,
{
    match node {
        Node::NullTest { null_test_type, arg } => {
            if null_test_type is IsNull {
                match arg {
                    Some(a) => {
                        let left = spec_parse(table, *a, array);
                        if left.len() > 0 && left.last() is Column {
                            seq![OutputModel::NullCheck(left.last()->Column_0)]
                        } else {
                            Seq::empty()
                        }
                    },
                    None => Seq::empty(),
                }
            } else {
                Seq::empty()
            }
        },
        Node::BoolExpr { boolop, args } => {
            if boolop is AndExpr {
                spec_parse_list(table, args@, array)
            } else {
                Seq::empty()
            }
        },
        Node::AExpr { kind, name, lexpr, rexpr } => {
            if kind is Other {
                Seq::empty()
            } else if spec_op_rejected(name@) {
                Seq::empty()
            } else {
                match (lexpr, rexpr) {
                    (Some(l), Some(r)) => seq![
                        OutputModel::Filter(
                            spec_parse(table, *l, kind is OpAny),
                            spec_parse(table, *r, kind is OpAny),
                        ),
                    ],
                    _ => Seq::empty(),
                }
            }
        },
        Node::AConst { val } => match val {
            AConstValue::Ival(i) => seq![OutputModel::Int { value: i as int, array }],
            AConstValue::Sval(s) => seq![OutputModel::Value { value: s@, array }],
            AConstValue::Fval(f) => seq![OutputModel::Value { value: f@, array }],
            AConstValue::Other => Seq::empty(),
        },
        Node::ColumnRef { fields } => {
            let name = if fields@.len() >= 1 {
                spec_string_node(fields@.last())
            } else {
                None
            };
            let qualifier = if fields@.len() >= 2 {
                spec_string_node(fields@[fields@.len() - 2])
            } else {
                None
            };
            let qualifier = if qualifier is Some {
                qualifier
            } else {
                table
            };
            match name {
                Some(n) => seq![OutputModel::Column(ColumnModel { table: qualifier, name: n })],
                None => Seq::empty(),
            }
        },
        Node::ParamRef { number } => seq![OutputModel::Parameter { pos: number as int, array }],
        Node::List { items } => spec_parse_list(table, items@, array),
        Node::TypeCast { arg } => match arg {
            Some(a) => spec_parse(table, *a, array),
            None => Seq::empty(),
        },
        _ => Seq::empty(),
    }
}

/// Concatenation of what the extractor emits for each node of a list.
pub open spec fn spec_parse_list(table: Option<Seq<char>>, s: Seq<Node>, array: bool) -> Seq<
    OutputModel,
>
    decreases s,
{
    if s.len() == 0 {
        Seq::empty()
    } else {
        spec_parse(table, s[0], array) + spec_parse_list(table, s.skip(1), array)
    }
}

/// Whether a column reference matches the target sharding column: names must
/// be equal, and qualifiers must be equal when both are present — a missing
/// qualifier on either side matches on name alone.
pub open spec fn spec_column_match(
    c: ColumnModel,
    table: Option<Seq<char>>,
    name: Seq<char>,
) -> bool {
    (match (table, c.table) {
        (Some(t), Some(ct)) => t == ct,
        _ => true,
    }) && c.name == name
}

/// The key one value-like output contributes: constants keep their string
/// form (integers rendered in decimal), placeholders flip from the tree's
/// 1-based position to the bound-vector's 0-based position. Columns, filters
/// and null checks contribute nothing here.
pub open spec fn spec_get_key(o: OutputModel) -> Option<KeyModel> {
    match o {
        OutputModel::Int { value, array } => Some(
            KeyModel::Constant { value: spec_int_string(value), array },
        ),
        OutputModel::Parameter { pos, array } => if pos >= 1 {
            Some(KeyModel::Parameter { pos: pos - 1, array })
        } else {
            None
        },
        OutputModel::Value { value, array } => Some(KeyModel::Constant { value, array }),
        _ => None,
    }
}

/// Keys contributed by every value-like output of a list, in order.
pub open spec fn spec_collect(s: Seq<OutputModel>) -> Seq<KeyModel>
    decreases s,
{
    if s.len() == 0 {
        Seq::empty()
    } else {
        (match spec_get_key(s[0]) {
            Some(k) => seq![k],
            None => Seq::empty(),
        }) + spec_collect(s.skip(1))
    }
}

/// Keys the resolver collects from one extractor output.
///
/// A `Filter` with exactly one side being a single column is an equality
/// candidate: when that column matches the target, every value-like output
/// on the *other* side becomes a key — both orderings are inspected, so
/// `col = v` and `v = col` resolve alike. Otherwise both sides are searched
/// recursively. A matching null check contributes the `Null` sentinel.
pub open spec fn spec_search(
    o: OutputModel,
    table: Option<Seq<char>>,
    name: Seq<char>,
) -> Seq<KeyModel>
    decreases o,
{
    match o {
        OutputModel::Filter(left, right) => {
            if left.len() == 1 && left[0] is Column {
                if spec_column_match(left[0]->Column_0, table, name) {
                    spec_collect(right)
                } else {
                    Seq::empty()
                }
            } else if right.len() == 1 && right[0] is Column {
                if spec_column_match(right[0]->Column_0, table, name) {
                    spec_collect(left)
                } else {
                    Seq::empty()
                }
            } else {
                spec_search_list(left, table, name) + spec_search_list(right, table, name)
            }
        },
        OutputModel::NullCheck(c) => {
            if spec_column_match(c, table, name) {
                seq![KeyModel::Null]
            } else {
                Seq::empty()
            }
        },
        _ => Seq::empty(),
    }
}

/// Model of an optional borrowed string.
pub open spec fn string_opt_model(r: Option<&String>) -> Option<Seq<char>> {
    match r {
        Some(s) => Some(s@),
        None => None,
    }
}

/// Keys the resolver collects from a list of outputs, in order.
pub open spec fn spec_search_list(
    s: Seq<OutputModel>,
    table: Option<Seq<char>>,
    name: Seq<char>,
) -> Seq<KeyModel>
    decreases s,
{
    if s.len() == 0 {
        Seq::empty()
    } else {
        spec_search(s[0], table, name) + spec_search_list(s.skip(1), table, name)
    }
}

/// Parsed `WHERE` clause of a statement, ready to be resolved against any
/// number of target sharding columns.
#[derive(Debug)]
pub struct WhereClause {
    pub output: Vec<Output>,
}

impl View for WhereClause {
    type V = Seq<OutputModel>;

    open spec fn view(&self) -> Seq<OutputModel> {
        outputs_model(self.output@)
    }
}

impl WhereClause {
    /// Parse the `WHERE` clause of a statement and extract all possible
    /// sharding keys. A statement without a `WHERE` clause yields nothing.
    pub fn new(table_name: Option<&String>, where_clause: Option<&Node>) -> (r: Option<
        WhereClause,
    >)
        ensures
            where_clause is None ==> r is None,
            where_clause matches Some(node) ==> r matches Some(wc) && wc@ == spec_parse(
                table_model(table_name),
                *node,
                false,
            ),
    {
        let node = match where_clause {
            Some(node) => node,
            None => {
                return None;
            },
        };
        let output = Self::parse(table_name, node, false);
        Some(WhereClause { output })
    }

    /// Resolve the extracted outputs against one target sharding column.
    pub fn keys(&self, table_name: Option<&String>, column_name: &String) -> (r: Vec<Key>)
        ensures
            keys_model(r@) == spec_search_list(self@, table_model(table_name), column_name@),
    {
        let ghost m = outputs_model(self.output@);
        let ghost tm = table_model(table_name);
        let ghost cn = column_name@;
        proof {
            lemma_outputs_model_len(self.output@);
            assert(m.skip(0) =~= m);
        }
        let mut keys: Vec<Key> = Vec::new();
        proof {
            assert(keys_model(keys@) =~= Seq::<KeyModel>::empty());
        }
        let mut i: usize = 0;
        while i < self.output.len()
            invariant
                i <= self.output@.len(),
                m == outputs_model(self.output@),
                m.len() == self.output@.len(),
                tm == table_model(table_name),
                cn == column_name@,
                keys_model(keys@) + spec_search_list(m.skip(i as int), tm, cn) == spec_search_list(
                    m,
                    tm,
                    cn,
                ),
            decreases self.output@.len() - i,
        {
            proof {
                lemma_outputs_model_index(self.output@, i as int);
                assert(m.skip(i as int)[0] == m[i as int]);
                assert(m.skip(i as int).skip(1) =~= m.skip(i as int + 1));
            }
            let mut sub = Self::search_for_keys(&self.output[i], table_name, column_name);
            let ghost old_keys = keys@;
            let ghost sub_model = sub@;
            keys.append(&mut sub);
            proof {
                lemma_keys_model_concat(old_keys, sub_model);
                assert((keys_model(old_keys) + keys_model(sub_model)) + spec_search_list(
                    m.skip(i as int + 1),
                    tm,
                    cn,
                ) =~= keys_model(old_keys) + (keys_model(sub_model) + spec_search_list(
                    m.skip(i as int + 1),
                    tm,
                    cn,
                )));
            }
            i += 1;
        }
        proof {
            assert(m.skip(self.output@.len() as int) =~= Seq::<OutputModel>::empty());
            assert(keys_model(keys@) + Seq::<KeyModel>::empty() =~= keys_model(keys@));
        }
        keys
    }

    /// Whether one column reference matches the target sharding column.
    fn column_match(column: &Column, table: Option<&String>, name: &String) -> (r: bool)
        ensures
            r == spec_column_match(column@, table_model(table), name@),
    {
        if let (Some(table), Some(other_table)) = (table, &column.table) {
            if !(*table == *other_table) {
                return false;
            }
        }
        column.name == *name
    }

    /// The key, if any, one value-like output contributes.
    fn get_key(output: &Output) -> (r: Option<Key>)
        ensures
            key_opt_model(r) == spec_get_key(output_model(*output)),
    {
        match output {
            Output::Int { value, array } => Some(
                Key::Constant { value: i32_to_string(*value), array: *array },
            ),
            Output::Parameter { pos, array } => {
                if *pos >= 1 {
                    Some(Key::Parameter { pos: (*pos - 1) as usize, array: *array })
                } else {
                    None
                }
            },
            Output::Value { value, array } => Some(
                Key::Constant { value: value.clone(), array: *array },
            ),
            _ => None,
        }
    }

    /// Collect the key of every value-like output in a list, in order.
    fn collect_keys(outputs: &Vec<Output>) -> (r: Vec<Key>)
        ensures
            keys_model(r@) == spec_collect(outputs_model(outputs@)),
    {
        let ghost m = outputs_model(outputs@);
        proof {
            lemma_outputs_model_len(outputs@);
            assert(m.skip(0) =~= m);
        }
        let mut keys: Vec<Key> = Vec::new();
        let mut i: usize = 0;
        while i < outputs.len()
            invariant
                i <= outputs@.len(),
                m == outputs_model(outputs@),
                m.len() == outputs@.len(),
                keys_model(keys@) + spec_collect(m.skip(i as int)) == spec_collect(m),
            decreases outputs@.len() - i,
        {
            proof {
                lemma_outputs_model_index(outputs@, i as int);
                assert(m.skip(i as int)[0] == m[i as int]);
                assert(m.skip(i as int).skip(1) =~= m.skip(i as int + 1));
            }
            let ghost old_keys = keys@;
            if let Some(key) = Self::get_key(&outputs[i]) {
                let ghost k = key@;
                keys.push(key);
                proof {
                    lemma_keys_model_push(old_keys, keys@[keys@.len() - 1]);
                    assert(keys_model(keys@) =~= keys_model(old_keys) + seq![k]);
                    assert((keys_model(old_keys) + seq![k]) + spec_collect(m.skip(i as int + 1))
                        =~= keys_model(old_keys) + (seq![k] + spec_collect(m.skip(i as int + 1))));
                }
            }
            i += 1;
        }
        proof {
            assert(m.skip(outputs@.len() as int) =~= Seq::<OutputModel>::empty());
            assert(keys_model(keys@) + Seq::<KeyModel>::empty() =~= keys_model(keys@));
        }
        keys
    }

    /// Keys one extractor output contributes for the target column.
    #[verifier::loop_isolation(false)]
    fn search_for_keys(output: &Output, table_name: Option<&String>, column_name: &String) -> (r:
        Vec<Key>)
        ensures
            keys_model(r@) == spec_search(
                output_model(*output),
                table_model(table_name),
                column_name@,
            ),
        decreases *output,
    {
        let ghost om = output_model(*output);
        let ghost tm = table_model(table_name);
        let ghost cn = column_name@;
        match output {
            Output::Filter(left, right) => {
                let ghost lm = outputs_model(left@);
                let ghost rm = outputs_model(right@);
                proof {
                    lemma_outputs_model_len(left@);
                    lemma_outputs_model_len(right@);
                }
                if left.len() == 1 {
                    proof {
                        lemma_outputs_model_index(left@, 0);
                    }
                    if let Output::Column(column) = &left[0] {
                        if Self::column_match(column, table_name, column_name) {
                            return Self::collect_keys(right);
                        } else {
                            let keys: Vec<Key> = Vec::new();
                            proof {
                                assert(keys_model(keys@) =~= Seq::<KeyModel>::empty());
                            }
                            return keys;
                        }
                    }
                }
                if right.len() == 1 {
                    proof {
                        lemma_outputs_model_index(right@, 0);
                    }
                    if let Output::Column(column) = &right[0] {
                        if Self::column_match(column, table_name, column_name) {
                            return Self::collect_keys(left);
                        } else {
                            let keys: Vec<Key> = Vec::new();
                            proof {
                                assert(keys_model(keys@) =~= Seq::<KeyModel>::empty());
                            }
                            return keys;
                        }
                    }
                }
                let mut keys: Vec<Key> = Vec::new();
                proof {
                    assert(lm.skip(0) =~= lm);
                    assert(keys_model(keys@) =~= Seq::<KeyModel>::empty());
                }
                let mut i: usize = 0;
                while i < left.len()
                    invariant
                        i <= left@.len(),
                        lm == outputs_model(left@),
                        lm.len() == left@.len(),
                        tm == table_model(table_name),
                        cn == column_name@,
                        keys_model(keys@) + spec_search_list(lm.skip(i as int), tm, cn)
                            == spec_search_list(lm, tm, cn),
                    decreases left@.len() - i,
                {
                    proof {
                        lemma_outputs_model_index(left@, i as int);
                        assert(lm.skip(i as int)[0] == lm[i as int]);
                        assert(lm.skip(i as int).skip(1) =~= lm.skip(i as int + 1));
                    }
                    let mut sub = Self::search_for_keys(&left[i], table_name, column_name);
                    let ghost old_keys = keys@;
                    let ghost sub_model = sub@;
                    keys.append(&mut sub);
                    proof {
                        lemma_keys_model_concat(old_keys, sub_model);
                        assert((keys_model(old_keys) + keys_model(sub_model)) + spec_search_list(
                            lm.skip(i as int + 1),
                            tm,
                            cn,
                        ) =~= keys_model(old_keys) + (keys_model(sub_model) + spec_search_list(
                            lm.skip(i as int + 1),
                            tm,
                            cn,
                        )));
                    }
                    i += 1;
                }
                proof {
                    assert(lm.skip(left@.len() as int) =~= Seq::<OutputModel>::empty());
                    assert(keys_model(keys@) + Seq::<KeyModel>::empty() =~= keys_model(keys@));
                    assert(keys_model(keys@) == spec_search_list(lm, tm, cn));
                    assert(rm.skip(0) =~= rm);
                }
                let mut j: usize = 0;
                while j < right.len()
                    invariant
                        j <= right@.len(),
                        lm == outputs_model(left@),
                        rm == outputs_model(right@),
                        rm.len() == right@.len(),
                        tm == table_model(table_name),
                        cn == column_name@,
                        keys_model(keys@) + spec_search_list(rm.skip(j as int), tm, cn)
                            == spec_search_list(lm, tm, cn) + spec_search_list(rm, tm, cn),
                    decreases right@.len() - j,
                {
                    proof {
                        lemma_outputs_model_index(right@, j as int);
                        assert(rm.skip(j as int)[0] == rm[j as int]);
                        assert(rm.skip(j as int).skip(1) =~= rm.skip(j as int + 1));
                    }
                    let mut sub = Self::search_for_keys(&right[j], table_name, column_name);
                    let ghost old_keys = keys@;
                    let ghost sub_model = sub@;
                    keys.append(&mut sub);
                    proof {
                        lemma_keys_model_concat(old_keys, sub_model);
                        assert((keys_model(old_keys) + keys_model(sub_model)) + spec_search_list(
                            rm.skip(j as int + 1),
                            tm,
                            cn,
                        ) =~= keys_model(old_keys) + (keys_model(sub_model) + spec_search_list(
                            rm.skip(j as int + 1),
                            tm,
                            cn,
                        )));
                    }
                    j += 1;
                }
                proof {
                    assert(rm.skip(right@.len() as int) =~= Seq::<OutputModel>::empty());
                    assert(keys_model(keys@) + Seq::<KeyModel>::empty() =~= keys_model(keys@));
                }
                keys
            },
            Output::NullCheck(column) => {
                let mut keys: Vec<Key> = Vec::new();
                if Self::column_match(column, table_name, column_name) {
                    keys.push(Key::Null);
                    proof {
                        assert(keys_model(keys@) =~= seq![KeyModel::Null]);
                    }
                } else {
                    proof {
                        assert(keys_model(keys@) =~= Seq::<KeyModel>::empty());
                    }
                }
                keys
            },
            _ => {
                let keys: Vec<Key> = Vec::new();
                proof {
                    assert(keys_model(keys@) =~= Seq::<KeyModel>::empty());
                }
                keys
            },
        }
    }

    /// The string a bare string node carries, if it is one.
    fn string<'a>(node: Option<&'a Node>) -> (r: Option<&'a String>)
        ensures
            string_opt_model(r) == (match node {
                Some(n) => spec_string_node(*n),
                None => None,
            }),
    {
        if let Some(node) = node {
            if let Node::StringVal { sval } = node {
                return Some(sval);
            }
        }
        None
    }

    /// Extract candidate outputs from one node of the `WHERE` subtree.
    #[verifier::loop_isolation(false)]
    fn parse(table_name: Option<&String>, node: &Node, array: bool) -> (r: Vec<Output>)
        ensures
            outputs_model(r@) == spec_parse(table_model(table_name), *node, array),
        decreases *node,
    {
        let ghost tm = table_model(table_name);
        let mut keys: Vec<Output> = Vec::new();
        proof {
            assert(outputs_model(keys@) =~= Seq::<OutputModel>::empty());
        }
        match node {
            Node::NullTest { null_test_type, arg } => {
                // Only IS NULL helps: IS NOT NULL matches almost everything.
                if matches!(null_test_type, NullTestType::IsNull) {
                    if let Some(a) = arg {
                        let mut left = Self::parse(table_name, a, array);
                        let ghost left_view = left@;
                        let ghost left_model = outputs_model(left@);
                        proof {
                            lemma_outputs_model_len(left@);
                            if left@.len() > 0 {
                                lemma_outputs_model_index(left@, left@.len() - 1);
                            }
                        }
                        let popped = left.pop();
                        if let Some(p) = popped {
                            proof {
                                assert(p == left_view[left_view.len() - 1]);
                                assert(output_model(p) == left_model.last());
                            }
                            if let Output::Column(c) = p {
                                keys.push(Output::NullCheck(c));
                                proof {
                                    lemma_outputs_model_index(keys@, 0);
                                    assert(outputs_model(keys@) =~= seq![output_model(keys@[0])]);
                                }
                            }
                        }
                    }
                }
                keys
            },
            Node::BoolExpr { boolop, args } => {
                // Only AND can be asserted: either side of an OR may direct
                // to a shard on its own.
                if matches!(boolop, BoolExprType::AndExpr) {
                    let mut i: usize = 0;
                    proof {
                        assert(args@.skip(0) =~= args@);
                    }
                    while i < args.len()
                        invariant
                            i <= args@.len(),
                            tm == table_model(table_name),
                            outputs_model(keys@) + spec_parse_list(tm, args@.skip(i as int), array)
                                == spec_parse_list(tm, args@, array),
                        decreases args@.len() - i,
                    {
                        proof {
                            assert(args@.skip(i as int)[0] == args@[i as int]);
                            assert(args@.skip(i as int).skip(1) =~= args@.skip(i as int + 1));
                        }
                        let mut sub = Self::parse(table_name, &args[i], array);
                        let ghost old_keys = keys@;
                        let ghost sub_view = sub@;
                        keys.append(&mut sub);
                        proof {
                            lemma_outputs_model_concat(old_keys, sub_view);
                            assert((outputs_model(old_keys) + outputs_model(sub_view))
                                + spec_parse_list(tm, args@.skip(i as int + 1), array)
                                =~= outputs_model(old_keys) + (outputs_model(sub_view)
                                + spec_parse_list(tm, args@.skip(i as int + 1), array)));
                        }
                        i += 1;
                    }
                    proof {
                        assert(args@.skip(args@.len() as int) =~= Seq::<Node>::empty());
                        assert(outputs_model(keys@) + Seq::<OutputModel>::empty() =~= outputs_model(
                            keys@,
                        ));
                    }
                }
                keys
            },
            Node::AExpr { kind, name, lexpr, rexpr } => {
                if !matches!(kind, AExprKind::Other) {
                    let op = Self::string(
                        if name.len() >= 1 {
                            Some(&name[0])
                        } else {
                            None
                        },
                    );
                    let mut rejected = false;
                    if let Some(op) = op {
                        let equals = String::from_str("=");
                        proof {
                            reveal_strlit("=");
                        }
                        if !(*op == equals) {
                            rejected = true;
                        }
                    }
                    proof {
                        assert(rejected == spec_op_rejected(name@));
                    }
                    if !rejected {
                        let arr = matches!(kind, AExprKind::OpAny);
                        if let (Some(l), Some(r)) = (lexpr, rexpr) {
                            let left = Self::parse(table_name, &**l, arr);
                            let right = Self::parse(table_name, &**r, arr);
                            let ghost filter_model = OutputModel::Filter(
                                outputs_model(left@),
                                outputs_model(right@),
                            );
                            keys.push(Output::Filter(left, right));
                            proof {
                                lemma_outputs_model_index(keys@, 0);
                                assert(outputs_model(keys@) =~= seq![filter_model]);
                            }
                        }
                    }
                }
                keys
            },
            Node::AConst { val } => {
                match val {
                    AConstValue::Ival(i) => {
                        keys.push(Output::Int { value: *i, array });
                    },
                    AConstValue::Sval(s) => {
                        keys.push(Output::Value { value: s.clone(), array });
                    },
                    AConstValue::Fval(f) => {
                        keys.push(Output::Value { value: f.clone(), array });
                    },
                    AConstValue::Other => {},
                }
                proof {
                    if keys@.len() > 0 {
                        lemma_outputs_model_index(keys@, 0);
                        assert(outputs_model(keys@) =~= seq![output_model(keys@[0])]);
                    }
                }
                keys
            },
            Node::ColumnRef { fields } => {
                let name = Self::string(
                    if fields.len() >= 1 {
                        Some(&fields[fields.len() - 1])
                    } else {
                        None
                    },
                );
                let qualifier = Self::string(
                    if fields.len() >= 2 {
                        Some(&fields[fields.len() - 2])
                    } else {
                        None
                    },
                );
                let qualifier = if qualifier.is_some() {
                    qualifier
                } else {
                    table_name
                };
                if let Some(name) = name {
                    let table = match qualifier {
                        Some(t) => Some(t.clone()),
                        None => None,
                    };
                    keys.push(Output::Column(Column { table, name: name.clone() }));
                    proof {
                        lemma_outputs_model_index(keys@, 0);
                        assert(outputs_model(keys@) =~= seq![output_model(keys@[0])]);
                    }
                }
                keys
            },
            Node::ParamRef { number } => {
                keys.push(Output::Parameter { pos: *number, array });
                proof {
                    lemma_outputs_model_index(keys@, 0);
                    assert(outputs_model(keys@) =~= seq![output_model(keys@[0])]);
                }
                keys
            },
            Node::List { items } => {
                let mut i: usize = 0;
                proof {
                    assert(items@.skip(0) =~= items@);
                }
                while i < items.len()
                    invariant
                        i <= items@.len(),
                        tm == table_model(table_name),
                        outputs_model(keys@) + spec_parse_list(tm, items@.skip(i as int), array)
                            == spec_parse_list(tm, items@, array),
                    decreases items@.len() - i,
                {
                    proof {
                        assert(items@.skip(i as int)[0] == items@[i as int]);
                        assert(items@.skip(i as int).skip(1) =~= items@.skip(i as int + 1));
                    }
                    let mut sub = Self::parse(table_name, &items[i], array);
                    let ghost old_keys = keys@;
                    let ghost sub_view = sub@;
                    keys.append(&mut sub);
                    proof {
                        lemma_outputs_model_concat(old_keys, sub_view);
                        assert((outputs_model(old_keys) + outputs_model(sub_view))
                            + spec_parse_list(tm, items@.skip(i as int + 1), array)
                            =~= outputs_model(old_keys) + (outputs_model(sub_view)
                            + spec_parse_list(tm, items@.skip(i as int + 1), array)));
                    }
                    i += 1;
                }
                proof {
                    assert(items@.skip(items@.len() as int) =~= Seq::<Node>::empty());
                    assert(outputs_model(keys@) + Seq::<OutputModel>::empty() =~= outputs_model(
                        keys@,
                    ));
                }
                keys
            },
            Node::TypeCast { arg } => {
                if let Some(a) = arg {
                    let mut sub = Self::parse(table_name, &**a, array);
                    let ghost sub_view = sub@;
                    keys.append(&mut sub);
                    proof {
                        lemma_outputs_model_concat(Seq::<Output>::empty(), sub_view);
                        assert(Seq::<Output>::empty() + sub_view =~= sub_view);
                    }
                }
                keys
            },
            _ => { keys },
        }
    }
}

/// A `WHERE` clause whose top-level connective is anything but `AND` —
/// `OR` in particular — contributes no outputs, so the resolver yields no
/// keys for any target column.
pub proof fn lemma_or_top_level_yields_no_keys(
    table: Option<Seq<char>>,
    node: Node,
    target_table: Option<Seq<char>>,
    target_column: Seq<char>,
)
    requires
        node matches Node::BoolExpr { boolop, args } && !(boolop is AndExpr),
    ensures
        spec_parse(table, node, false) == Seq::<OutputModel>::empty(),
        spec_search_list(spec_parse(table, node, false), target_table, target_column)
            == Seq::<KeyModel>::empty(),
{
}

/// `IS NOT NULL` never helps the router: it extracts to nothing, so the
/// resolver yields no keys from it.
pub proof fn lemma_is_not_null_yields_no_keys(
    table: Option<Seq<char>>,
    node: Node,
    target_table: Option<Seq<char>>,
    target_column: Seq<char>,
)
    requires
        node matches Node::NullTest { null_test_type, arg } && null_test_type is IsNotNull,
    ensures
        spec_parse(table, node, false) == Seq::<OutputModel>::empty(),
        spec_search_list(spec_parse(table, node, false), target_table, target_column)
            == Seq::<KeyModel>::empty(),
{
}

/// `IS NULL` on a column that matches the routing column yields exactly one
/// `Null` key.
pub proof fn lemma_is_null_yields_one_null_key(
    table: Option<Seq<char>>,
    node: Node,
    target_table: Option<Seq<char>>,
    target_column: Seq<char>,
)
    requires
        ({
            &&& node matches Node::NullTest { null_test_type, arg: Some(a) }
            &&& null_test_type is IsNull
            &&& spec_parse(table, *a, false).len() > 0
            &&& spec_parse(table, *a, false).last() matches OutputModel::Column(c)
            &&& spec_column_match(c, target_table, target_column)
        }),
    ensures
        spec_search_list(spec_parse(table, node, false), target_table, target_column)
            == seq![KeyModel::Null],
{
    reveal_with_fuel(spec_search_list, 2);
    let p = spec_parse(table, node, false);
    assert(p.len() == 1);
    assert(p.skip(1) =~= Seq::<OutputModel>::empty());
    assert(spec_search_list(p, target_table, target_column) =~= seq![KeyModel::Null]);
}

/// Equality is commutative for the resolver: a filter with a single column
/// on one side and the values on the other yields the same keys as its
/// mirror image.
pub proof fn lemma_filter_commutes(
    c: ColumnModel,
    outs: Seq<OutputModel>,
    target_table: Option<Seq<char>>,
    target_column: Seq<char>,
)
    ensures
        spec_search(OutputModel::Filter(seq![OutputModel::Column(c)], outs), target_table,
            target_column)
            == spec_search(OutputModel::Filter(outs, seq![OutputModel::Column(c)]), target_table,
            target_column),
{
    let single = seq![OutputModel::Column(c)];
    assert(single.len() == 1 && single[0] is Column);
    if outs.len() == 1 && outs[0] is Column {
        // Column-to-column comparisons bind no values on either side.
        reveal_with_fuel(spec_collect, 2);
        assert(single.skip(1) =~= Seq::<OutputModel>::empty());
        assert(outs.skip(1) =~= Seq::<OutputModel>::empty());
        assert(spec_collect(single) =~= Seq::<KeyModel>::empty());
        assert(spec_collect(outs) =~= Seq::<KeyModel>::empty());
    }
}

} // verus!
