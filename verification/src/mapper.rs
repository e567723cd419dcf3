//! The shard mapper: turns the resolver's key bindings into a [`Shard`]
//! target.
//!
//! Routing values are unsigned 64-bit integers in decimal form; a value is
//! placed on shard `value % num_shards`. The `Null` sentinel is assigned the
//! descriptor's dedicated null shard. An array-flagged value is read as a
//! Postgres array literal `{a, b, c}` and every element is placed. A key
//! that cannot be resolved — a placeholder position outside the bound
//! vector, or a malformed value or array literal — contributes nothing;
//! when nothing at all is contributed the statement falls back to every
//! shard.

use crate::key::{keys_model, Key, KeyModel};
use crate::route::Shard;
use vstd::prelude::*;
use vstd::string::StrSliceExecFns;

verus! {

/// Per-table sharding descriptor.
pub struct ShardingSchema {
    /// The sharding column of the table.
    pub column: String,
    /// How many shards the table is split over.
    pub num_shards: usize,
    /// The shard NULL routing values are assigned to.
    pub null_shard: usize,
}

impl ShardingSchema {
    /// A usable descriptor has at least one shard, and its null shard is
    /// one of them.
    pub open spec fn wf(&self) -> bool {
        self.num_shards >= 1 && self.null_shard < self.num_shards
    }
}

/// Numeric value of one decimal digit; negative for any other character.
pub open spec fn spec_digit_value(c: char) -> int {
    if c == '0' {
        0
    } else if c == '1' {
        1
    } else if c == '2' {
        2
    } else if c == '3' {
        3
    } else if c == '4' {
        4
    } else if c == '5' {
        5
    } else if c == '6' {
        6
    } else if c == '7' {
        7
    } else if c == '8' {
        8
    } else if c == '9' {
        9
    } else {
        -1
    }
}

/// A non-empty, all-digit character sequence.
pub open spec fn spec_is_digits(s: Seq<char>) -> bool {
    s.len() > 0 && forall|i: int| 0 <= i < s.len() ==> spec_digit_value(#[trigger] s[i]) >= 0
}

/// Value of a digit sequence read as a decimal number.
pub open spec fn spec_digits_value(s: Seq<char>) -> int
    decreases s.len(),
{
    if s.len() == 0 {
        0
    } else {
        spec_digits_value(s.drop_last()) * 10 + spec_digit_value(s.last())
    }
}

/// The routing value a string denotes: a plain unsigned decimal that fits
/// 64 bits; anything else is malformed.
pub open spec fn spec_parse_u64(s: Seq<char>) -> Option<int> {
    if spec_is_digits(s) && spec_digits_value(s) <= u64::MAX {
        Some(spec_digits_value(s))
    } else {
        None
    }
}

/// Leading spaces removed.
pub open spec fn spec_trim_front(s: Seq<char>) -> Seq<char>
    decreases s.len(),
{
    if s.len() > 0 && s[0] == ' ' {
        spec_trim_front(s.skip(1))
    } else {
        s
    }
}

/// Trailing spaces removed.
pub open spec fn spec_trim_back(s: Seq<char>) -> Seq<char>
    decreases s.len(),
{
    if s.len() > 0 && s.last() == ' ' {
        spec_trim_back(s.drop_last())
    } else {
        s
    }
}

/// Leading and trailing spaces removed.
pub open spec fn spec_trim(s: Seq<char>) -> Seq<char> {
    spec_trim_back(spec_trim_front(s))
}

/// Values of a comma-separated element list: `cur` accumulates the element
/// being read; each element, trimmed of spaces, must be a decimal value.
pub open spec fn spec_elements(s: Seq<char>, cur: Seq<char>) -> Option<Seq<int>>
    decreases s.len(),
{
    if s.len() == 0 {
        match spec_parse_u64(spec_trim(cur)) {
            Some(v) => Some(seq![v]),
            None => None,
        }
    } else if s[0] == ',' {
        match spec_parse_u64(spec_trim(cur)) {
            Some(v) => match spec_elements(s.skip(1), Seq::empty()) {
                Some(rest) => Some(seq![v] + rest),
                None => None,
            },
            None => None,
        }
    } else {
        spec_elements(s.skip(1), cur.push(s[0]))
    }
}

/// Values of a Postgres array literal `{a, b, c}`, when well formed.
pub open spec fn spec_array_values(s: Seq<char>) -> Option<Seq<int>> {
    if s.len() >= 2 && s[0] == '{' && s.last() == '}' {
        spec_elements(s.subrange(1, s.len() - 1), Seq::empty())
    } else {
        None
    }
}

/// Shard indices one value contributes: one placement for a plain value,
/// one per element for an array value, nothing when malformed.
pub open spec fn spec_value_indices(value: Seq<char>, array: bool, num_shards: int) -> Seq<int> {
    if array {
        match spec_array_values(value) {
            Some(vals) => vals.map_values(|v: int| v % num_shards),
            None => Seq::empty(),
        }
    } else {
        match spec_parse_u64(value) {
            Some(v) => seq![v % num_shards],
            None => Seq::empty(),
        }
    }
}

/// Shard indices one key binding contributes.
pub open spec fn spec_key_indices(
    k: KeyModel,
    params: Seq<Seq<char>>,
    num_shards: int,
    null_shard: int,
) -> Seq<int> {
    match k {
        KeyModel::Null => seq![null_shard],
        KeyModel::Constant { value, array } => spec_value_indices(value, array, num_shards),
        KeyModel::Parameter { pos, array } => if 0 <= pos < params.len() {
            spec_value_indices(params[pos], array, num_shards)
        } else {
            Seq::empty()
        },
    }
}

/// Indices contributed by a whole key list, in key order.
pub open spec fn spec_all_indices(
    keys: Seq<KeyModel>,
    params: Seq<Seq<char>>,
    num_shards: int,
    null_shard: int,
) -> Seq<int>
    decreases keys.len(),
{
    if keys.len() == 0 {
        Seq::empty()
    } else {
        spec_all_indices(keys.drop_last(), params, num_shards, null_shard) + spec_key_indices(
            keys.last(),
            params,
            num_shards,
            null_shard,
        )
    }
}

/// First occurrence of every index, in order.
pub open spec fn spec_dedup(s: Seq<int>) -> Seq<int>
    decreases s.len(),
{
    if s.len() == 0 {
        Seq::empty()
    } else {
        let front = spec_dedup(s.drop_last());
        if front.contains(s.last()) {
            front
        } else {
            front.push(s.last())
        }
    }
}

/// Model of the bound-parameter vector.
pub open spec fn params_model(s: Seq<String>) -> Seq<Seq<char>> {
    s.map_values(|p: String| p@)
}

/// Model of an optional routing value.
pub open spec fn opt_u64_model(o: Option<u64>) -> Option<int> {
    match o {
        Some(v) => Some(v as int),
        None => None,
    }
}

/// Model of an optional list of routing values.
pub open spec fn opt_values_model(o: Option<Vec<u64>>) -> Option<Seq<int>> {
    match o {
        Some(v) => Some(v@.map_values(|x: u64| x as int)),
        None => None,
    }
}

/// Model of a list of shard indices.
pub open spec fn indices_model(s: Seq<usize>) -> Seq<int> {
    s.map_values(|u: usize| u as int)
}

/// Deduplicated indices never repeat.
pub proof fn lemma_dedup_distinct(s: Seq<int>)
    ensures
        forall|j: int, k: int|
            0 <= j < k < spec_dedup(s).len() ==> spec_dedup(s)[j] != spec_dedup(s)[k],
    decreases s.len(),
{
    if s.len() > 0 {
        lemma_dedup_distinct(s.drop_last());
        let front = spec_dedup(s.drop_last());
        let whole = spec_dedup(s);
        if !front.contains(s.last()) {
            assert forall|j: int, k: int| 0 <= j < k < whole.len() implies whole[j] != whole[k] by {
                if k == whole.len() - 1 {
                    if front[j] == s.last() {
                        assert(front.contains(s.last()));
                    }
                }
            }
        }
    }
}

proof fn lemma_digits_value_nonneg(s: Seq<char>)
    requires
        forall|i: int| 0 <= i < s.len() ==> spec_digit_value(#[trigger] s[i]) >= 0,
    ensures
        spec_digits_value(s) >= 0,
    decreases s.len(),
{
    if s.len() > 0 {
        lemma_digits_value_nonneg(s.drop_last());
    }
}

/// A decimal number only grows as digits are appended.
proof fn lemma_digits_value_grows(s: Seq<char>, k: int)
    requires
        0 <= k <= s.len(),
        forall|i: int| 0 <= i < s.len() ==> spec_digit_value(#[trigger] s[i]) >= 0,
    ensures
        spec_digits_value(s) >= spec_digits_value(s.take(k)),
    decreases s.len(),
{
    if k < s.len() {
        lemma_digits_value_grows(s.drop_last(), k);
        assert(s.drop_last().take(k) =~= s.take(k));
        lemma_digits_value_nonneg(s.drop_last());
    } else {
        assert(s.take(k) =~= s);
    }
}

fn digit_value(c: char) -> (r: Option<u64>)
    ensures
        r matches Some(d) ==> spec_digit_value(c) == d,
        r is None ==> spec_digit_value(c) < 0,
{
    match c {
        '0' => Some(0),
        '1' => Some(1),
        '2' => Some(2),
        '3' => Some(3),
        '4' => Some(4),
        '5' => Some(5),
        '6' => Some(6),
        '7' => Some(7),
        '8' => Some(8),
        '9' => Some(9),
        _ => None,
    }
}

/// The decimal value of `chars[lo..hi]`, when that range is a well-formed
/// routing value.
#[verifier::loop_isolation(false)]
fn digits_value(chars: &Vec<char>, lo: usize, hi: usize) -> (r: Option<u64>)
    requires
        lo <= hi <= chars@.len(),
    ensures
        opt_u64_model(r) == spec_parse_u64(chars@.subrange(lo as int, hi as int)),
{
    let ghost t = chars@.subrange(lo as int, hi as int);
    if lo == hi {
        return None;
    }
    let mut acc: u64 = 0;
    let mut i: usize = lo;
    while i < hi
        invariant
            lo <= i <= hi,
            forall|j: int| lo <= j < i ==> spec_digit_value(#[trigger] chars@[j]) >= 0,
            acc as int == spec_digits_value(chars@.subrange(lo as int, i as int)),
        decreases hi - i,
    {
        let c = chars[i];
        match digit_value(c) {
            None => {
                proof {
                    assert(t[i - lo] == chars@[i as int]);
                    assert(!spec_is_digits(t));
                }
                return None;
            },
            Some(d) => {
                if acc > (u64::MAX - d) / 10 {
                    // The value no longer fits 64 bits: whatever follows,
                    // this is not a well-formed routing value.
                    proof {
                        let grown = chars@.subrange(lo as int, i as int + 1);
                        assert(grown.drop_last() =~= chars@.subrange(lo as int, i as int));
                        assert(grown.last() == chars@[i as int]);
                        assert(acc * 10 + d > u64::MAX) by (nonlinear_arith)
                            requires
                                acc > (u64::MAX - d) / 10,
                                d <= 9,
                        ;
                        if spec_is_digits(t) {
                            assert forall|j: int| 0 <= j < t.len() implies spec_digit_value(
                                #[trigger] t[j],
                            ) >= 0 by {}
                            lemma_digits_value_grows(t, i + 1 - lo);
                            assert(t.take(i + 1 - lo) =~= grown);
                        }
                    }
                    return None;
                }
                acc = acc * 10 + d;
                proof {
                    let grown = chars@.subrange(lo as int, i as int + 1);
                    assert(grown.drop_last() =~= chars@.subrange(lo as int, i as int));
                    assert(grown.last() == chars@[i as int]);
                }
            },
        }
        i += 1;
    }
    proof {
        assert(t =~= chars@.subrange(lo as int, hi as int));
        assert forall|j: int| 0 <= j < t.len() implies spec_digit_value(#[trigger] t[j]) >= 0 by {
            assert(t[j] == chars@[lo + j]);
        }
        assert(spec_is_digits(t));
    }
    Some(acc)
}

/// The routing value of one accumulated array element, spaces trimmed.
#[verifier::loop_isolation(false)]
fn element_value(chars: &Vec<char>) -> (r: Option<u64>)
    ensures
        opt_u64_model(r) == spec_parse_u64(spec_trim(chars@)),
{
    let n = chars.len();
    let mut lo: usize = 0;
    proof {
        assert(chars@.skip(0) =~= chars@);
    }
    while lo < n && chars[lo] == ' '
        invariant
            lo <= n,
            spec_trim_front(chars@) == spec_trim_front(chars@.skip(lo as int)),
        decreases n - lo,
    {
        proof {
            assert(chars@.skip(lo as int)[0] == chars@[lo as int]);
            assert(chars@.skip(lo as int).skip(1) =~= chars@.skip(lo as int + 1));
        }
        lo += 1;
    }
    proof {
        assert(spec_trim_front(chars@) == chars@.skip(lo as int));
    }
    let mut hi: usize = n;
    while hi > lo && chars[hi - 1] == ' '
        invariant
            lo <= hi <= n,
            spec_trim_back(chars@.skip(lo as int)) == spec_trim_back(
                chars@.subrange(lo as int, hi as int),
            ),
        decreases hi,
    {
        proof {
            let cut = chars@.subrange(lo as int, hi as int);
            assert(cut.last() == chars@[hi - 1]);
            assert(cut.drop_last() =~= chars@.subrange(lo as int, hi as int - 1));
        }
        hi -= 1;
    }
    proof {
        assert(chars@.skip(lo as int) =~= chars@.subrange(lo as int, n as int));
        assert(spec_trim(chars@) == chars@.subrange(lo as int, hi as int));
    }
    digits_value(chars, lo, hi)
}

/// The characters of a value string.
fn string_chars(s: &str) -> (r: Vec<char>)
    ensures
        r@ == s@,
{
    let n = s.unicode_len();
    let mut out: Vec<char> = Vec::new();
    let mut i: usize = 0;
    while i < n
        invariant
            i <= n,
            n == s@.len(),
            out@ == s@.take(i as int),
        decreases n - i,
    {
        out.push(s.get_char(i));
        proof {
            assert(s@.take(i as int).push(s@[i as int]) =~= s@.take(i as int + 1));
        }
        i += 1;
    }
    proof {
        assert(s@.take(n as int) =~= s@);
    }
    out
}

/// The routing value a plain (non-array) constant denotes.
fn parse_value(s: &str) -> (r: Option<u64>)
    ensures
        opt_u64_model(r) == spec_parse_u64(s@),
{
    let chars = string_chars(s);
    let n = chars.len();
    let r = digits_value(&chars, 0, n);
    proof {
        assert(chars@.subrange(0, n as int) =~= s@);
    }
    r
}

/// The values of the elements of `chars[i..hi]`, continuing an element
/// accumulated in `cur`.
#[verifier::loop_isolation(false)]
fn scan_elements(chars: &Vec<char>, i: usize, hi: usize, cur: Vec<char>) -> (r: Option<Vec<u64>>)
    requires
        i <= hi <= chars@.len(),
    ensures
        opt_values_model(r) == spec_elements(chars@.subrange(i as int, hi as int), cur@),
    decreases hi - i,
{
    let ghost piece = chars@.subrange(i as int, hi as int);
    if i == hi {
        proof {
            assert(piece.len() == 0);
        }
        match element_value(&cur) {
            Some(v) => {
                let out: Vec<u64> = vec![v];
                proof {
                    assert(out@.map_values(|x: u64| x as int) =~= seq![v as int]);
                }
                Some(out)
            },
            None => None,
        }
    } else {
        proof {
            assert(piece[0] == chars@[i as int]);
            assert(piece.skip(1) =~= chars@.subrange(i as int + 1, hi as int));
        }
        let c = chars[i];
        if c == ',' {
            match element_value(&cur) {
                Some(v) => {
                    let fresh: Vec<char> = Vec::new();
                    match scan_elements(chars, i + 1, hi, fresh) {
                        Some(rest) => {
                            let mut out: Vec<u64> = vec![v];
                            let ghost rest_view = rest@;
                            let mut rest = rest;
                            out.append(&mut rest);
                            proof {
                                assert(out@.map_values(|x: u64| x as int) =~= seq![v as int]
                                    + rest_view.map_values(|x: u64| x as int));
                            }
                            Some(out)
                        },
                        None => None,
                    }
                },
                None => None,
            }
        } else {
            let mut cur = cur;
            cur.push(c);
            scan_elements(chars, i + 1, hi, cur)
        }
    }
}

/// The element values of a Postgres array literal, when well formed.
fn array_values(s: &str) -> (r: Option<Vec<u64>>)
    ensures
        opt_values_model(r) == spec_array_values(s@),
{
    let chars = string_chars(s);
    let n = chars.len();
    if n < 2 {
        return None;
    }
    if !(chars[0] == '{') {
        return None;
    }
    if !(chars[n - 1] == '}') {
        return None;
    }
    let cur: Vec<char> = Vec::new();
    let r = scan_elements(&chars, 1, n - 1, cur);
    proof {
        assert(chars@.subrange(1, n as int - 1) =~= s@.subrange(1, s@.len() - 1));
    }
    r
}

/// Shard indices one value string contributes.
#[verifier::loop_isolation(false)]
fn value_indices(value: &str, array: bool, schema: &ShardingSchema) -> (r: Vec<usize>)
    requires
        schema.wf(),
    ensures
        indices_model(r@) == spec_value_indices(value@, array, schema.num_shards as int),
{
    let mut out: Vec<usize> = Vec::new();
    if array {
        match array_values(value) {
            None => {
                proof {
                    assert(indices_model(out@) =~= Seq::<int>::empty());
                }
            },
            Some(vals) => {
                let ghost vm = vals@.map_values(|x: u64| x as int);
                let ghost n = schema.num_shards as int;
                let mut j: usize = 0;
                while j < vals.len()
                    invariant
                        j <= vals@.len(),
                        indices_model(out@) == vm.map_values(|v: int| v % n).take(j as int),
                    decreases vals@.len() - j,
                {
                    let idx = (vals[j] % (schema.num_shards as u64)) as usize;
                    out.push(idx);
                    proof {
                        assert(indices_model(out@) =~= vm.map_values(|v: int| v % n).take(
                            j as int + 1,
                        ));
                    }
                    j += 1;
                }
                proof {
                    assert(vm.map_values(|v: int| v % n).take(vals@.len() as int) =~= vm.map_values(
                        |v: int| v % n,
                    ));
                }
            },
        }
    } else {
        match parse_value(value) {
            None => {
                proof {
                    assert(indices_model(out@) =~= Seq::<int>::empty());
                }
            },
            Some(v) => {
                let idx = (v % (schema.num_shards as u64)) as usize;
                out.push(idx);
                proof {
                    assert(indices_model(out@) =~= seq![v as int % (schema.num_shards as int)]);
                }
            },
        }
    }
    out
}

/// Shard indices one key binding contributes.
fn key_indices(key: &Key, params: &Vec<String>, schema: &ShardingSchema) -> (r: Vec<usize>)
    requires
        schema.wf(),
    ensures
        indices_model(r@) == spec_key_indices(
            key@,
            params_model(params@),
            schema.num_shards as int,
            schema.null_shard as int,
        ),
{
    match key {
        Key::Null => {
            let out: Vec<usize> = vec![schema.null_shard];
            proof {
                assert(indices_model(out@) =~= seq![schema.null_shard as int]);
            }
            out
        },
        Key::Constant { value, array } => value_indices(value.as_str(), *array, schema),
        Key::Parameter { pos, array } => {
            if *pos < params.len() {
                let r = value_indices(params[*pos].as_str(), *array, schema);
                proof {
                    assert(params_model(params@)[*pos as int] == params@[*pos as int]@);
                }
                r
            } else {
                let out: Vec<usize> = Vec::new();
                proof {
                    assert(indices_model(out@) =~= Seq::<int>::empty());
                }
                out
            }
        },
    }
}

/// Whether a shard index was already collected.
fn contains_index(v: &Vec<usize>, x: usize) -> (r: bool)
    ensures
        r == v@.contains(x),
{
    let mut t: usize = 0;
    while t < v.len()
        invariant
            t <= v@.len(),
            forall|q: int| 0 <= q < t ==> v@[q] != x,
        decreases v@.len() - t,
    {
        if v[t] == x {
            proof {
                assert(v@[t as int] == x);
            }
            return true;
        }
        t += 1;
    }
    false
}

proof fn lemma_indices_model_contains(v: Seq<usize>, x: usize)
    ensures
        indices_model(v).contains(x as int) <==> v.contains(x),
{
    let m = indices_model(v);
    if v.contains(x) {
        let j = choose|j: int| 0 <= j < v.len() && v[j] == x;
        assert(m[j] == x as int);
    }
    if m.contains(x as int) {
        let j = choose|j: int| 0 <= j < m.len() && m[j] == x as int;
        assert(v[j] as int == x as int);
        assert(v[j] == x);
    }
}

/// Resolve a key list to its shard target.
///
/// Every resolvable key contributes its shard placements; the distinct
/// placements collapse to the target: none at all — including an empty key
/// list — falls back to every shard, a single one routes direct, several
/// route to that subset.
#[verifier::loop_isolation(false)]
pub fn shard_for_keys(keys: &Vec<Key>, params: &Vec<String>, schema: &ShardingSchema) -> (r: Shard)
    requires
        schema.wf(),
    ensures
        ({
            let idx = spec_dedup(
                spec_all_indices(
                    keys_model(keys@),
                    params_model(params@),
                    schema.num_shards as int,
                    schema.null_shard as int,
                ),
            );
            &&& (idx.len() == 0 ==> r is All)
            &&& (idx.len() == 1 ==> r == Shard::Direct(idx[0] as usize))
            &&& (idx.len() > 1 ==> (r matches Shard::Multi(v) && (indices_model(v@) == idx
                && forall|j: int, k: int| 0 <= j < k < v@.len() ==> v@[j] != v@[k])))
        }),
        keys@.len() == 0 ==> r is All,
{
    let ghost km = keys_model(keys@);
    let ghost pm = params_model(params@);
    let ghost n = schema.num_shards as int;
    let ghost ns = schema.null_shard as int;
    let mut indices: Vec<usize> = Vec::new();
    proof {
        assert(km.take(0) =~= Seq::<KeyModel>::empty());
        assert(indices_model(indices@) =~= Seq::<int>::empty());
    }
    let mut i: usize = 0;
    while i < keys.len()
        invariant
            i <= keys@.len(),
            indices_model(indices@) == spec_dedup(spec_all_indices(km.take(i as int), pm, n, ns)),
        decreases keys@.len() - i,
    {
        let kidx = key_indices(&keys[i], params, schema);
        let ghost km_i = spec_key_indices(km[i as int], pm, n, ns);
        proof {
            assert(km[i as int] == keys@[i as int]@);
            assert(km.take(i as int + 1).drop_last() =~= km.take(i as int));
            assert(km.take(i as int + 1).last() == km[i as int]);
        }
        let ghost before = spec_all_indices(km.take(i as int), pm, n, ns);
        let mut j: usize = 0;
        proof {
            assert(before + km_i.take(0) =~= before);
        }
        while j < kidx.len()
            invariant
                j <= kidx@.len(),
                indices_model(kidx@) == km_i,
                km_i.len() == kidx@.len(),
                indices_model(indices@) == spec_dedup(before + km_i.take(j as int)),
            decreases kidx@.len() - j,
        {
            let x = kidx[j];
            proof {
                assert((before + km_i.take(j as int + 1)).drop_last() =~= before + km_i.take(
                    j as int,
                ));
                assert((before + km_i.take(j as int + 1)).last() == km_i[j as int]);
                assert(km_i[j as int] == x as int);
                lemma_indices_model_contains(indices@, x);
            }
            if !contains_index(&indices, x) {
                indices.push(x);
                proof {
                    assert(indices_model(indices@) =~= spec_dedup(
                        before + km_i.take(j as int),
                    ).push(x as int));
                }
            }
            j += 1;
        }
        proof {
            assert(km_i.take(kidx@.len() as int) =~= km_i);
            assert(before + km_i =~= spec_all_indices(km.take(i as int + 1), pm, n, ns));
        }
        i += 1;
    }
    proof {
        assert(km.take(keys@.len() as int) =~= km);
        lemma_dedup_distinct(spec_all_indices(km, pm, n, ns));
    }
    if indices.len() == 0 {
        Shard::All
    } else if indices.len() == 1 {
        let s = indices[0];
        proof {
            assert(indices_model(indices@)[0] == s as int);
        }
        Shard::Direct(s)
    } else {
        proof {
            let idx = spec_dedup(spec_all_indices(km, pm, n, ns));
            assert forall|j: int, k: int| 0 <= j < k < indices@.len() implies indices@[j]
                != indices@[k] by {
                assert(idx[j] == indices@[j] as int);
                assert(idx[k] == indices@[k] as int);
            }
        }
        Shard::Multi(indices)
    }
}

/// With no keys resolved, the mapper falls back to every shard: an empty
/// key list contributes no placements.
pub proof fn lemma_no_keys_no_indices(
    params: Seq<Seq<char>>,
    num_shards: int,
    null_shard: int,
)
    ensures
        spec_all_indices(Seq::<KeyModel>::empty(), params, num_shards, null_shard)
            == Seq::<int>::empty(),
        spec_dedup(Seq::<int>::empty()) == Seq::<int>::empty(),
{
}

} // verus!
