use crate::text::{
    around, bytes_of, find_byte, first_index, is_first, lemma_first_index, lemma_is_first_unique,
    split_around, str_eq,
};
use vstd::prelude::*;

verus! {

/// Separates the pairs of a query string.
pub const PAIR_SEPARATOR: u8 = 0x26;

/// Separates a key from its value.
pub const KEY_SEPARATOR: u8 = 0x3d;

/// A decoded query: each key maps to its values, in the order they occur.
pub type QueryModel = Map<Seq<u8>, Seq<Seq<u8>>>;

/// The key/value pair that one `&`-separated piece contributes: none
/// when the piece has no `=`, else the text around the first `=`.
pub open spec fn piece_pairs(p: Seq<u8>) -> Seq<(Seq<u8>, Seq<u8>)> {
    match first_index(p, KEY_SEPARATOR) {
        Some(j) => seq![around(p, j)],
        None => seq![],
    }
}

/// The key/value pairs of a query string, in order of occurrence.
pub open spec fn query_pairs(s: Seq<u8>) -> Seq<(Seq<u8>, Seq<u8>)>
    decreases s.len(),
{
    match first_index(s, PAIR_SEPARATOR) {
        Some(i) => {
            proof {
                lemma_first_index(s, PAIR_SEPARATOR);
            }
            piece_pairs(s.subrange(0, i)) + query_pairs(s.subrange(i + 1, s.len() as int))
        },
        None => piece_pairs(s),
    }
}

/// Records value `v` under key `k`, after the values already there.
pub open spec fn add_value(m: QueryModel, k: Seq<u8>, v: Seq<u8>) -> QueryModel {
    if m.contains_key(k) {
        m.insert(k, m[k].push(v))
    } else {
        m.insert(k, seq![v])
    }
}

/// The query that a sequence of pairs builds, taken in order.
pub open spec fn collect(ps: Seq<(Seq<u8>, Seq<u8>)>) -> QueryModel
    decreases ps.len(),
{
    if ps.len() == 0 {
        Map::empty()
    } else {
        add_value(collect(ps.drop_last()), ps.last().0, ps.last().1)
    }
}

/// The query that the text `s` decodes to.
pub open spec fn decode_query(s: Seq<u8>) -> QueryModel {
    collect(query_pairs(s))
}

/// A fragment made of one key and one value, neither holding `&` or `=`,
/// decodes to exactly one entry, which maps the key to that single value.
pub proof fn lemma_single_pair(k: Seq<u8>, v: Seq<u8>)
    requires
        !k.contains(PAIR_SEPARATOR),
        !k.contains(KEY_SEPARATOR),
        !v.contains(PAIR_SEPARATOR),
        !v.contains(KEY_SEPARATOR),
    ensures
        decode_query(k + seq![KEY_SEPARATOR] + v) == Map::<Seq<u8>, Seq<Seq<u8>>>::empty().insert(
            k,
            seq![v],
        ),
{
    let s = k + seq![KEY_SEPARATOR] + v;
    assert forall|i: int| 0 <= i < s.len() implies s[i] != PAIR_SEPARATOR by {
        if i < k.len() {
            assert(s[i] == k[i]);
        } else if i > k.len() {
            assert(s[i] == v[i - k.len() - 1]);
        }
    }
    lemma_first_index(s, PAIR_SEPARATOR);
    assert forall|i: int| 0 <= i < k.len() implies s[i] != KEY_SEPARATOR by {
        assert(s[i] == k[i]);
    }
    assert(is_first(s, KEY_SEPARATOR, k.len() as int));
    lemma_is_first_unique(s, KEY_SEPARATOR, k.len() as int);
    assert(around(s, k.len() as int) == (k, v)) by {
        assert(s.subrange(0, k.len() as int) =~= k);
        assert(s.subrange(k.len() as int + 1, s.len() as int) =~= v);
    }
    let ps = query_pairs(s);
    assert(ps == seq![(k, v)]);
    assert(ps.drop_last() =~= Seq::<(Seq<u8>, Seq<u8>)>::empty());
    assert(collect(ps.drop_last()) == Map::<Seq<u8>, Seq<Seq<u8>>>::empty());
}

/// Decoding depends on the fragment alone: two decodings of one fragment
/// hold the same map.
pub proof fn lemma_decode_deterministic(s: &str, a: QueryString, b: QueryString)
    requires
        a@ == decode_query(bytes_of(s)),
        b@ == decode_query(bytes_of(s)),
    ensures
        a@ == b@,
{
}

/// The value(s) given for one key.
#[derive(Debug, PartialEq, Eq)]
pub enum Value<'buf> {
    Single(&'buf str),
    Multiple(Vec<&'buf str>),
}

impl<'buf> Value<'buf> {
    /// The values, in order of occurrence.
    pub open spec fn values(&self) -> Seq<Seq<u8>> {
        match self {
            Value::Single(s) => seq![bytes_of(s)],
            Value::Multiple(vs) => vs@.map_values(|v: &str| bytes_of(v)),
        }
    }

    /// A key seen once holds `Single`; one seen more often holds `Multiple`.
    pub open spec fn wf(&self) -> bool {
        match self {
            Value::Single(_) => true,
            Value::Multiple(vs) => vs@.len() >= 2,
        }
    }
}

/// The query held by a list of entries.
pub open spec fn entries_map<'buf>(es: Seq<(&'buf str, Value<'buf>)>) -> QueryModel
    decreases es.len(),
{
    if es.len() == 0 {
        Map::empty()
    } else {
        entries_map(es.drop_last()).insert(bytes_of(es.last().0), es.last().1.values())
    }
}

/// Keys are distinct and every value is well formed.
pub open spec fn entries_wf<'buf>(es: Seq<(&'buf str, Value<'buf>)>) -> bool {
    &&& forall|i: int, j: int|
        0 <= i < es.len() && 0 <= j < es.len() && i != j ==> bytes_of(#[trigger] es[i].0)
            != bytes_of(#[trigger] es[j].0)
    &&& forall|i: int| 0 <= i < es.len() ==> (#[trigger] es[i]).1.wf()
}

proof fn lemma_entries_absent<'buf>(es: Seq<(&'buf str, Value<'buf>)>, k: Seq<u8>)
    requires
        forall|i: int| 0 <= i < es.len() ==> bytes_of(#[trigger] es[i].0) != k,
    ensures
        !entries_map(es).contains_key(k),
    decreases es.len(),
{
    if es.len() > 0 {
        lemma_entries_absent(es.drop_last(), k);
    }
}

proof fn lemma_entries_present<'buf>(es: Seq<(&'buf str, Value<'buf>)>, j: int)
    requires
        entries_wf(es),
        0 <= j < es.len(),
    ensures
        entries_map(es).contains_key(bytes_of(es[j].0)),
        entries_map(es)[bytes_of(es[j].0)] == es[j].1.values(),
    decreases es.len(),
{
    if j < es.len() - 1 {
        lemma_entries_present(es.drop_last(), j);
    }
}

proof fn lemma_entries_update<'buf>(es: Seq<(&'buf str, Value<'buf>)>, j: int, v: Value<'buf>)
    requires
        entries_wf(es),
        0 <= j < es.len(),
    ensures
        entries_map(es.update(j, (es[j].0, v))) =~= entries_map(es).insert(
            bytes_of(es[j].0),
            v.values(),
        ),
    decreases es.len(),
{
    let es2 = es.update(j, (es[j].0, v));
    if j < es.len() - 1 {
        assert(es2.drop_last() =~= es.drop_last().update(j, (es[j].0, v)));
        lemma_entries_update(es.drop_last(), j, v);
    } else {
        assert(es2.drop_last() =~= es.drop_last());
        assert forall|i: int| 0 <= i < es.drop_last().len() implies bytes_of(
            #[trigger] es.drop_last()[i].0,
        ) != bytes_of(es[j].0) by {
            assert(es.drop_last()[i] == es[i]);
        }
        lemma_entries_absent(es.drop_last(), bytes_of(es[j].0));
    }
}

/// A decoded query string: a map from keys to `Value`s.
#[derive(Debug, PartialEq, Eq)]
pub struct QueryString<'buf> {
    entries: Vec<(&'buf str, Value<'buf>)>,
}

impl<'buf> View for QueryString<'buf> {
    type V = QueryModel;

    closed spec fn view(&self) -> QueryModel {
        entries_map(self.entries@)
    }
}

impl<'buf> QueryString<'buf> {
    /// Keys are distinct; a key seen once holds `Single`, one seen more often `Multiple`.
    pub closed spec fn wf(&self) -> bool {
        entries_wf(self.entries@)
    }

    /// Position of the entry for `key`.
    fn position(&self, key: &str) -> (r: Option<usize>)
        ensures
            match r {
                Some(j) => j < self.entries@.len() && bytes_of(self.entries@[j as int].0)
                    == bytes_of(key),
                None => forall|i: int|
                    0 <= i < self.entries@.len() ==> bytes_of(#[trigger] self.entries@[i].0)
                        != bytes_of(key),
            },
    {
        let mut i: usize = 0;
        while i < self.entries.len()
            invariant
                i <= self.entries@.len(),
                forall|k: int|
                    0 <= k < i ==> bytes_of(#[trigger] self.entries@[k].0) != bytes_of(key),
            decreases self.entries@.len() - i,
        {
            if str_eq(self.entries[i].0, key) {
                return Some(i);
            }
            i = i + 1;
        }
        None
    }

    /// The value recorded for `key`.
    pub fn get(&self, key: &str) -> (r: Option<&Value<'buf>>)
        requires
            self.wf(),
        ensures
            r is Some <==> self@.contains_key(bytes_of(key)),
            match r {
                Some(v) => v.wf() && v.values() == self@[bytes_of(key)],
                None => true,
            },
    {
        match self.position(key) {
            Some(j) => {
                proof {
                    lemma_entries_present(self.entries@, j as int);
                }
                Some(&self.entries[j].1)
            },
            None => {
                proof {
                    lemma_entries_absent(self.entries@, bytes_of(key));
                }
                None
            },
        }
    }

    /// Records `val` under `key`, after any values already there.
    fn add(&mut self, key: &'buf str, val: &'buf str)
        requires
            old(self).wf(),
        ensures
            final(self).wf(),
            final(self)@ == add_value(old(self)@, bytes_of(key), bytes_of(val)),
    {
        match self.position(key) {
            Some(j) => {
                proof {
                    lemma_entries_present(self.entries@, j as int);
                }
                let ghost es = self.entries@;
                let (k, v) = self.entries.remove(j);
                let merged = match v {
                    Value::Single(prev) => Value::Multiple(vec![prev, val]),
                    Value::Multiple(mut vs) => {
                        vs.push(val);
                        Value::Multiple(vs)
                    },
                };
                proof {
                    assert(merged.values() =~= es[j as int].1.values().push(bytes_of(val)));
                }
                self.entries.insert(j, (k, merged));
                proof {
                    assert(self.entries@ =~= es.update(j as int, (k, merged)));
                    lemma_entries_update(es, j as int, merged);
                }
            },
            None => {
                proof {
                    lemma_entries_absent(self.entries@, bytes_of(key));
                }
                let ghost es = self.entries@;
                self.entries.push((key, Value::Single(val)));
                proof {
                    assert(self.entries@.drop_last() =~= es);
                }
            },
        }
    }

    /// Decodes a `key=value&key=value` fragment. Pieces without `=` are
    /// skipped; only the first `=` of a piece separates key from value.
    pub fn decode(s: &'buf str) -> (r: QueryString<'buf>)
        ensures
            r.wf(),
            r@ == decode_query(bytes_of(s)),
    {
        let mut q = QueryString { entries: Vec::new() };
        let mut rest = s;
        let ghost mut done: Seq<(Seq<u8>, Seq<u8>)> = seq![];
        proof {
            assert(q@ =~= collect(done));
        }
        loop
            invariant
                q.wf(),
                q@ == collect(done),
                query_pairs(bytes_of(s)) == done + query_pairs(bytes_of(rest)),
            decreases bytes_of(rest).len(),
        {
            let ghost before = bytes_of(rest);
            match find_byte(rest.as_bytes(), PAIR_SEPARATOR) {
                Some(i) => {
                    let (piece, tail) = split_around(rest, i);
                    proof {
                        lemma_first_index(before, PAIR_SEPARATOR);
                        assert(query_pairs(before) == piece_pairs(bytes_of(piece)) + query_pairs(
                            bytes_of(tail),
                        ));
                    }
                    q.add_piece(piece, Ghost(done));
                    proof {
                        assert(done + query_pairs(before) =~= (done + piece_pairs(bytes_of(piece)))
                            + query_pairs(bytes_of(tail)));
                        done = done + piece_pairs(bytes_of(piece));
                    }
                    rest = tail;
                },
                None => {
                    q.add_piece(rest, Ghost(done));
                    proof {
                        assert(done + query_pairs(before) =~= done + piece_pairs(before));
                    }
                    return q;
                },
            }
        }
    }

    /// Adds the pair of one `&`-separated piece, if it has one.
    fn add_piece(&mut self, piece: &'buf str, Ghost(done): Ghost<Seq<(Seq<u8>, Seq<u8>)>>)
        requires
            old(self).wf(),
            old(self)@ == collect(done),
        ensures
            final(self).wf(),
            final(self)@ == collect(done + piece_pairs(bytes_of(piece))),
    {
        match find_byte(piece.as_bytes(), KEY_SEPARATOR) {
            Some(j) => {
                proof {
                    lemma_first_index(bytes_of(piece), KEY_SEPARATOR);
                }
                let (key, val) = split_around(piece, j);
                self.add(key, val);
                proof {
                    let ps = done + piece_pairs(bytes_of(piece));
                    assert(ps.drop_last() =~= done);
                }
            },
            None => {
                proof {
                    assert(done + piece_pairs(bytes_of(piece)) =~= done);
                }
            },
        }
    }
}

} // verus!
