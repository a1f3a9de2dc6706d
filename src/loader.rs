use vstd::prelude::*;
use std::collections::HashMap;
use crate::graph::{JobTasks, TaskData};

verus! {

broadcast use vstd::std_specs::hash::group_hash_axioms;

/// Why an authored task graph was rejected.
#[derive(Clone, Copy, Debug, PartialEq, Eq, Structural)]
pub enum LoadError {
    /// A key is not a decimal `u32`.
    InvalidTaskKey,
    /// Two keys name the same id, as `"0"` and `"00"` do.
    DuplicateTaskKey,
}

pub open spec fn is_digit(b: u8) -> bool {
    48 <= b <= 57
}

/// The number that a string of decimal digits denotes.
pub open spec fn digits_value(s: Seq<u8>) -> nat
    decreases s.len(),
{
    if s.len() == 0 {
        0
    } else {
        digits_value(s.drop_last()) * 10 + (s.last() - 48) as nat
    }
}

/// The key text without a leading `+`.
pub open spec fn unsigned_part(s: Seq<u8>) -> Seq<u8> {
    if s.len() > 0 && s[0] == 43 { s.subrange(1, s.len() as int) } else { s }
}

/// The id that a key denotes: an optional `+` and then one or more decimal digits, with a
/// value that fits in a `u32`.
pub open spec fn parse_key(s: Seq<u8>) -> Option<u32> {
    let d = unsigned_part(s);
    if d.len() > 0 && (forall|i: int| 0 <= i < d.len() ==> is_digit(#[trigger] d[i])) && digits_value(d) <= u32::MAX {
        Some(digits_value(d) as u32)
    } else {
        None
    }
}

/// The decimal text of `n`, without sign or leading zeros.
pub open spec fn decimal(n: nat) -> Seq<u8>
    decreases n,
{
    if n < 10 {
        seq![(48 + n) as u8]
    } else {
        decimal(n / 10).push((48 + n % 10) as u8)
    }
}

proof fn lemma_digits_value_grows(s: Seq<u8>, i: int, j: int)
    requires
        0 <= i <= j <= s.len(),
        forall|k: int| 0 <= k < s.len() ==> is_digit(#[trigger] s[k]),
    ensures
        digits_value(s.subrange(0, i)) <= digits_value(s.subrange(0, j)),
    decreases j - i,
{
    if i < j {
        lemma_digits_value_grows(s, i, j - 1);
        assert(s.subrange(0, j).drop_last() =~= s.subrange(0, j - 1));
    }
}

/// Parses a key as std's `u32::from_str` does.
pub fn parse_task_key(s: &[u8]) -> (r: Option<u32>)
    ensures
        r == parse_key(s@),
{
    let start: usize = if s.len() > 0 && s[0] == 43 { 1 } else { 0 };
    let ghost d = unsigned_part(s@);
    assert(d =~= s@.subrange(start as int, s@.len() as int));
    if start >= s.len() {
        return None;
    }
    let mut acc: u64 = 0;
    let mut i: usize = start;
    while i < s.len()
        invariant
            start <= i <= s.len(),
            start < s.len(),
            d =~= s@.subrange(start as int, s@.len() as int),
            d == unsigned_part(s@),
            forall|k: int| start <= k < i ==> is_digit(#[trigger] s@[k]),
            acc == digits_value(s@.subrange(start as int, i as int)),
            acc <= u32::MAX,
        decreases s.len() - i,
    {
        let b = s[i];
        if b < 48 || b > 57 {
            assert(d[(i - start) as int] == s@[i as int]);
            assert(!is_digit(d[(i - start) as int]));
            return None;
        }
        assert(s@.subrange(start as int, i + 1).drop_last() =~= s@.subrange(start as int, i as int));
        acc = acc * 10 + (b - 48) as u64;
        i = i + 1;
        if acc > 0xffff_ffff {
            let ghost all_digits = forall|k: int| 0 <= k < d.len() ==> is_digit(#[trigger] d[k]);
            proof {
                if all_digits {
                    lemma_digits_value_grows(d, i - start, d.len() as int);
                    assert(d.subrange(0, i - start) =~= s@.subrange(start as int, i as int));
                    assert(d.subrange(0, d.len() as int) =~= d);
                }
            }
            return None;
        }
    }
    assert(s@.subrange(start as int, s@.len() as int) =~= d);
    Some(acc as u32)
}

/// Appends the decimal text of `n`.
fn push_decimal(n: u32, out: &mut Vec<u8>)
    ensures
        final(out)@ == old(out)@ + decimal(n as nat),
    decreases n,
{
    if n >= 10 {
        push_decimal(n / 10, out);
    }
    out.push(48 + (n % 10) as u8);
    assert(final(out)@ =~= old(out)@ + decimal(n as nat));
}

/// The key under which node `id` is written: its decimal text.
pub fn task_key(id: u32) -> (r: Vec<u8>)
    ensures
        r@ == decimal(id as nat),
{
    let mut out: Vec<u8> = Vec::new();
    push_decimal(id, &mut out);
    assert(out@ =~= decimal(id as nat));
    out
}

/// The authored entries with their keys as byte strings.
pub open spec fn keyed_view(v: Seq<(Vec<u8>, TaskData)>) -> Seq<(Seq<u8>, TaskData)> {
    v.map_values(|p: (Vec<u8>, TaskData)| (p.0@, p.1))
}

/// The id that entry `i` is keyed by, when its key parses.
pub open spec fn key_id(es: Seq<(Seq<u8>, TaskData)>, i: int) -> u32 {
    match parse_key(es[i].0) {
        Some(k) => k,
        None => 0,
    }
}

pub open spec fn keys_valid(es: Seq<(Seq<u8>, TaskData)>) -> bool {
    forall|i: int| 0 <= i < es.len() ==> (#[trigger] parse_key(es[i].0)) is Some
}

pub open spec fn keys_distinct(es: Seq<(Seq<u8>, TaskData)>) -> bool {
    forall|i: int, j: int| 0 <= i < j < es.len() ==> #[trigger] key_id(es, i) != #[trigger] key_id(es, j)
}

/// The nodes of the first `n` entries, each stored under its parsed key, with that key as
/// its id.
pub open spec fn load_map(es: Seq<(Seq<u8>, TaskData)>, n: nat) -> Map<u32, TaskData>
    decreases n,
{
    if n == 0 {
        Map::empty()
    } else {
        load_map(es, (n - 1) as nat).insert(
            key_id(es, n - 1),
            TaskData { id: key_id(es, n - 1), ..es[n - 1].1 },
        )
    }
}

/// The graph that the authored entries describe, or why they are rejected: a key that does
/// not parse first, then two keys with the same id.
pub open spec fn spec_load(es: Seq<(Seq<u8>, TaskData)>) -> Result<Map<u32, TaskData>, LoadError> {
    if !keys_valid(es) {
        Err(LoadError::InvalidTaskKey)
    } else if !keys_distinct(es) {
        Err(LoadError::DuplicateTaskKey)
    } else {
        Ok(load_map(es, es.len()))
    }
}

/// `es` writes out exactly the nodes of `nodes`, each under the decimal text of its id.
pub open spec fn encodes(es: Seq<(Seq<u8>, TaskData)>, nodes: Map<u32, TaskData>) -> bool {
    &&& forall|i: int| 0 <= i < es.len() ==> {
        &&& (#[trigger] es[i]).0 == decimal(es[i].1.id as nat)
        &&& nodes.contains_key(es[i].1.id)
        &&& nodes[es[i].1.id] == es[i].1
    }
    &&& forall|i: int, j: int| 0 <= i < j < es.len() ==> #[trigger] es[i].1.id != #[trigger] es[j].1.id
    &&& forall|k: u32| #[trigger] nodes.contains_key(k) ==> exists|i: int| 0 <= i < es.len() && es[i].1.id == k
}

/// Builds a task graph from authored entries keyed by the text of their ids; see
/// `spec_load`. The cursor starts at node 0.
pub fn tasks_from_keyed(entries: &Vec<(Vec<u8>, TaskData)>) -> (r: Result<JobTasks, LoadError>)
    ensures
        match r {
            Ok(g) => spec_load(keyed_view(entries@)) == Ok::<Map<u32, TaskData>, LoadError>(g@.nodes)
                && g@.current == 0 && g@.last_added == 0,
            Err(e) => spec_load(keyed_view(entries@)) == Err::<Map<u32, TaskData>, LoadError>(e),
        },
{
    let ghost es = keyed_view(entries@);
    let mut ids: Vec<u32> = Vec::new();
    let mut i: usize = 0;
    while i < entries.len()
        invariant
            i <= entries.len(),
            es == keyed_view(entries@),
            ids@.len() == i,
            forall|j: int| 0 <= j < i ==> parse_key(es[j].0) == Some(#[trigger] ids@[j]),
        decreases entries.len() - i,
    {
        assert(es[i as int] == (entries@[i as int].0@, entries@[i as int].1));
        match parse_task_key(entries[i].0.as_slice()) {
            None => {
                assert(parse_key(es[i as int].0) is None);
                assert(!keys_valid(es));
                return Err(LoadError::InvalidTaskKey);
            },
            Some(k) => {
                ids.push(k);
            },
        }
        i = i + 1;
    }
    assert(keys_valid(es)) by {
        assert forall|j: int| 0 <= j < es.len() implies (#[trigger] parse_key(es[j].0)) is Some by {
            assert(parse_key(es[j].0) == Some(ids@[j]));
        }
    }
    let mut data: HashMap<u32, TaskData> = HashMap::new();
    let mut i: usize = 0;
    while i < entries.len()
        invariant
            i <= entries.len(),
            es == keyed_view(entries@),
            keys_valid(es),
            ids@.len() == entries@.len(),
            forall|j: int| 0 <= j < entries@.len() ==> parse_key(es[j].0) == Some(#[trigger] ids@[j]),
            data@ == load_map(es, i as nat),
            forall|k: u32| #[trigger] data@.contains_key(k) <==> exists|j: int| 0 <= j < i && ids@[j] == k,
            forall|a: int, b: int| 0 <= a < b < i ==> #[trigger] ids@[a] != #[trigger] ids@[b],
        decreases entries.len() - i,
    {
        let id = ids[i];
        assert(key_id(es, i as int) == id);
        if data.contains_key(&id) {
            proof {
                let j = choose|j: int| 0 <= j < i && ids@[j] == id;
                assert(key_id(es, j) == id);
                assert(!keys_distinct(es));
            }
            return Err(LoadError::DuplicateTaskKey);
        }
        assert(es[i as int] == (entries@[i as int].0@, entries@[i as int].1));
        let node = entries[i].1;
        data.insert(id, TaskData { id, ..node });
        proof {
            assert forall|k: u32| #[trigger] data@.contains_key(k) <==> exists|j: int| 0 <= j < i + 1 && ids@[j] == k by {
                if k == id {
                    assert(ids@[i as int] == k);
                }
            }
        }
        i = i + 1;
    }
    assert(keys_distinct(es)) by {
        assert forall|a: int, b: int| 0 <= a < b < es.len() implies #[trigger] key_id(es, a) != #[trigger] key_id(es, b) by {
            assert(key_id(es, a) == ids@[a]);
            assert(key_id(es, b) == ids@[b]);
        }
    }
    Ok(JobTasks::from_map(data))
}

proof fn lemma_decimal(n: nat)
    ensures
        decimal(n).len() > 0,
        forall|i: int| 0 <= i < decimal(n).len() ==> is_digit(#[trigger] decimal(n)[i]),
        digits_value(decimal(n)) == n,
    decreases n,
{
    if n >= 10 {
        lemma_decimal(n / 10);
        assert(decimal(n).drop_last() =~= decimal(n / 10));
        assert(decimal(n).last() == (48 + n % 10) as u8);
        assert(((decimal(n).last() - 48) as nat) == n % 10);
        assert(digits_value(decimal(n)) == digits_value(decimal(n / 10)) * 10 + n % 10);
        assert((n / 10) * 10 + n % 10 == n) by (nonlinear_arith);
    } else {
        assert(decimal(n).drop_last() =~= Seq::<u8>::empty());
        assert(((decimal(n).last() - 48) as nat) == n);
        assert(digits_value(decimal(n)) == digits_value(Seq::<u8>::empty()) * 10 + n);
    }
}

/// The decimal text of an id parses back to that id.
pub proof fn lemma_key_parses(id: u32)
    ensures
        parse_key(decimal(id as nat)) == Some(id),
{
    lemma_decimal(id as nat);
    assert(is_digit(decimal(id as nat)[0]));
    assert(unsigned_part(decimal(id as nat)) == decimal(id as nat));
}

proof fn lemma_load_map_encoded(es: Seq<(Seq<u8>, TaskData)>, nodes: Map<u32, TaskData>, n: nat)
    requires
        encodes(es, nodes),
        n <= es.len(),
    ensures
        load_map(es, n) =~= Map::new(
            |k: u32| exists|i: int| 0 <= i < n && es[i].1.id == k,
            |k: u32| nodes[k],
        ),
    decreases n,
{
    if n > 0 {
        lemma_load_map_encoded(es, nodes, (n - 1) as nat);
        let i = n - 1;
        lemma_key_parses(es[i].1.id);
        assert(key_id(es, i) == es[i].1.id);
        assert(TaskData { id: key_id(es, i), ..es[i].1 } == es[i].1);
        let prev = Map::new(
            |k: u32| exists|j: int| 0 <= j < n - 1 && es[j].1.id == k,
            |k: u32| nodes[k],
        );
        let cur = Map::new(
            |k: u32| exists|j: int| 0 <= j < n && es[j].1.id == k,
            |k: u32| nodes[k],
        );
        assert forall|k: u32| #[trigger] cur.contains_key(k) implies prev.insert(es[i].1.id, es[i].1).contains_key(k) by {
            let j = choose|j: int| 0 <= j < n && es[j].1.id == k;
            if j < n - 1 {
                assert(prev.contains_key(k));
            }
        }
        assert forall|k: u32| #[trigger] prev.insert(es[i].1.id, es[i].1).contains_key(k) implies cur.contains_key(k) by {
            if k == es[i].1.id {
                assert(0 <= i < n && es[i].1.id == k);
            } else {
                let j = choose|j: int| 0 <= j < n - 1 && es[j].1.id == k;
                assert(0 <= j < n && es[j].1.id == k);
            }
        }
        assert(prev.insert(es[i].1.id, es[i].1) =~= cur);
    }
}

/// Writing a graph's nodes under the decimal text of their ids and loading them back gives
/// exactly those nodes.
pub proof fn lemma_keyed_round_trip(es: Seq<(Seq<u8>, TaskData)>, nodes: Map<u32, TaskData>)
    requires
        encodes(es, nodes),
    ensures
        spec_load(es) == Ok::<Map<u32, TaskData>, LoadError>(nodes),
{
    assert forall|i: int| 0 <= i < es.len() implies (#[trigger] parse_key(es[i].0)) is Some by {
        lemma_key_parses(es[i].1.id);
    }
    assert forall|i: int, j: int| 0 <= i < j < es.len() implies #[trigger] key_id(es, i) != #[trigger] key_id(es, j) by {
        lemma_key_parses(es[i].1.id);
        lemma_key_parses(es[j].1.id);
    }
    lemma_load_map_encoded(es, nodes, es.len());
    assert(load_map(es, es.len()) =~= nodes);
}

} // verus!
