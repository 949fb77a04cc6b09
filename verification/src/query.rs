//! Query strings: splitting on `&` and `=`, percent-decoding, and the
//! resulting key/value map.

use vstd::prelude::*;

use crate::assoc::{
    keys_distinct, lemma_pairs_map_dom, lemma_pairs_map_index, lemma_pairs_map_len,
    lemma_pairs_map_update, pairs_map,
};
use crate::decode::{decode_chars, url_decoded};
use crate::json::join;
use crate::text::{chars_of, string_from_chars, sub_chars};

verus! {

/// The position of the first `c` in `s`, or the length of `s` when there
/// is none.
pub open spec fn first_index(s: Seq<char>, c: char) -> int
    decreases s.len(),
{
    if s.len() == 0 {
        0
    } else if s[0] == c {
        0
    } else {
        1 + first_index(s.drop_first(), c)
    }
}

proof fn lemma_first_index(s: Seq<char>, c: char, j: int)
    requires
        0 <= j <= s.len(),
        forall|t: int| 0 <= t < j ==> s[t] != c,
        j == s.len() || s[j] == c,
    ensures
        first_index(s, c) == j,
    decreases j,
{
    if j > 0 {
        lemma_first_index(s.drop_first(), c, j - 1);
    }
}

/// The key and value that one `&`-separated piece of a query string
/// stands for: the key is what stands before the first `=`, the value what
/// stands after it (empty when there is no `=`), each percent-decoded.
pub open spec fn segment_pair(seg: Seq<char>) -> (Seq<char>, Seq<char>) {
    let k = first_index(seg, '=');
    (
        url_decoded(seg.take(k)),
        if k < seg.len() { url_decoded(seg.skip(k + 1)) } else { Seq::empty() },
    )
}

/// `m` after the piece `seg` is read into it: an empty piece is skipped.
pub open spec fn add_segment(m: Map<Seq<char>, Seq<char>>, seg: Seq<char>) -> Map<Seq<char>, Seq<char>> {
    if seg.len() == 0 {
        m
    } else {
        m.insert(segment_pair(seg).0, segment_pair(seg).1)
    }
}

/// The map that the pieces `segs` give, read in order.
pub open spec fn segments_map(segs: Seq<Seq<char>>) -> Map<Seq<char>, Seq<char>>
    decreases segs.len(),
{
    if segs.len() == 0 {
        Map::empty()
    } else {
        add_segment(segments_map(segs.drop_last()), segs.last())
    }
}

/// The pieces of `s` between occurrences of `sep` (`str::split`): always
/// at least one, possibly empty.
pub open spec fn split_on(s: Seq<char>, sep: char) -> Seq<Seq<char>>
    decreases s.len(),
{
    if s.len() == 0 {
        seq![Seq::empty()]
    } else {
        let prev = split_on(s.drop_last(), sep);
        if s.last() == sep {
            prev.push(Seq::empty())
        } else {
            prev.update(prev.len() - 1, prev.last().push(s.last()))
        }
    }
}

/// Splitting always yields at least one piece.
pub proof fn lemma_split_on_nonempty(s: Seq<char>, sep: char)
    ensures
        split_on(s, sep).len() >= 1,
    decreases s.len(),
{
    if s.len() > 0 {
        lemma_split_on_nonempty(s.drop_last(), sep);
    }
}

proof fn lemma_join_extend_last(p: Seq<Seq<char>>, sep: Seq<char>, c: char)
    requires
        p.len() >= 1,
    ensures
        join(p.update(p.len() - 1, p.last().push(c)), sep) == join(p, sep).push(c),
{
    let q = p.update(p.len() - 1, p.last().push(c));
    if p.len() > 1 {
        assert(q.drop_last() == p.drop_last());
        assert(join(q, sep) =~= join(p, sep).push(c));
    }
}

/// Splitting `s` on `sep` cuts it at each `sep` and nowhere else: no piece
/// holds `sep`, and the pieces joined with `sep` between them give `s`
/// back; text without `sep` is a single piece.
pub proof fn lemma_split_on(s: Seq<char>, sep: char)
    ensures
        forall|i: int, j: int|
            0 <= i < split_on(s, sep).len() && 0 <= j < split_on(s, sep)[i].len() ==> split_on(
                s,
                sep,
            )[i][j] != sep,
        join(split_on(s, sep), seq![sep]) == s,
        !s.contains(sep) ==> split_on(s, sep) == seq![s],
    decreases s.len(),
{
    if s.len() == 0 {
        assert(s =~= Seq::<char>::empty());
        assert(split_on(s, sep) =~= seq![s]);
    } else {
        let t = s.drop_last();
        let c = s.last();
        lemma_split_on(t, sep);
        lemma_split_on_nonempty(t, sep);
        let prev = split_on(t, sep);
        if c == sep {
            assert(split_on(s, sep).drop_last() == prev);
            assert(join(split_on(s, sep), seq![sep]) =~= s);
            assert(s.contains(sep)) by {
                assert(s[s.len() - 1] == sep);
            }
        } else {
            lemma_join_extend_last(prev, seq![sep], c);
            assert(s =~= t.push(c));
            if !s.contains(sep) {
                assert forall|k: int| 0 <= k < t.len() implies t[k] != sep by {
                    assert(s[k] == t[k]);
                }
                assert(!t.contains(sep));
                assert(split_on(s, sep) =~= seq![s]);
            }
        }
    }
}

/// A query string without `&` is one pair: nothing when it is empty, else
/// the key before its first `=` mapped to the value after it.
pub proof fn lemma_parsed_single_pair(q: Seq<char>)
    requires
        !q.contains('&'),
    ensures
        parsed_query(q) == if q.len() == 0 {
            Map::<Seq<char>, Seq<char>>::empty()
        } else {
            Map::<Seq<char>, Seq<char>>::empty().insert(segment_pair(q).0, segment_pair(q).1)
        },
{
    lemma_split_on(q, '&');
    let segs = split_on(q, '&');
    assert(segs == seq![q]);
    assert(segs.drop_last() =~= Seq::<Seq<char>>::empty());
    assert(segs.last() == q);
    assert(segments_map(segs.drop_last()) == Map::<Seq<char>, Seq<char>>::empty());
}

proof fn lemma_split_concat(a: Seq<char>, b: Seq<char>, sep: char)
    ensures
        split_on(a + seq![sep] + b, sep) == split_on(a, sep) + split_on(b, sep),
    decreases b.len(),
{
    lemma_split_on_nonempty(a, sep);
    let s = a + seq![sep] + b;
    if b.len() == 0 {
        assert(s.drop_last() == a);
        assert(s.last() == sep);
        assert(split_on(a, sep).push(Seq::empty()) =~= split_on(a, sep) + seq![Seq::<char>::empty()]);
    } else {
        let b0 = b.drop_last();
        let c = b.last();
        lemma_split_concat(a, b0, sep);
        lemma_split_on_nonempty(b0, sep);
        assert(s.drop_last() == a + seq![sep] + b0);
        assert(s.last() == c);
        let pa = split_on(a, sep);
        let pb = split_on(b0, sep);
        if c == sep {
            assert((pa + pb).push(Seq::empty()) =~= pa + pb.push(Seq::empty()));
        } else {
            let prev = pa + pb;
            assert(prev.update(prev.len() - 1, prev.last().push(c)) =~= pa + pb.update(
                pb.len() - 1,
                pb.last().push(c),
            ));
        }
    }
}

proof fn lemma_segments_map_concat(x: Seq<Seq<char>>, y: Seq<Seq<char>>)
    ensures
        segments_map(x + y) == segments_map(x).union_prefer_right(segments_map(y)),
    decreases y.len(),
{
    if y.len() == 0 {
        assert(x + y == x);
        assert(segments_map(x).union_prefer_right(segments_map(y)) =~= segments_map(x));
    } else {
        lemma_segments_map_concat(x, y.drop_last());
        assert((x + y).drop_last() == x + y.drop_last());
        assert((x + y).last() == y.last());
        assert(segments_map(x + y) =~= segments_map(x).union_prefer_right(segments_map(y)));
    }
}

/// The map a query string stands for: its `&`-separated pieces, empty ones
/// skipped, each read as a key/value pair; a later pair for a key wins.
pub open spec fn parsed_query(q: Seq<char>) -> Map<Seq<char>, Seq<char>> {
    segments_map(split_on(q, '&'))
}

/// The pairs of a query string are read independently of each other: the
/// parameters of `q1&q2` are those of `q1` and of `q2`, a key that both
/// name taking its value from `q2`.
pub proof fn lemma_parsed_query_concat(q1: Seq<char>, q2: Seq<char>)
    ensures
        parsed_query(q1 + seq!['&'] + q2) == parsed_query(q1).union_prefer_right(parsed_query(q2)),
{
    lemma_split_concat(q1, q2, '&');
    lemma_segments_map_concat(split_on(q1, '&'), split_on(q2, '&'));
}

/// Reading back what was written: once `key` is set to `value`, the map
/// gives `value` for `key`, and for every other key what it gave before.
pub proof fn lemma_query_map_read_after_write(
    before: QueryMap,
    after: QueryMap,
    key: Seq<char>,
    value: Seq<char>,
    other: Seq<char>,
)
    requires
        after@ == before@.insert(key, value),
        other != key,
    ensures
        after@.contains_key(key),
        after@[key] == value,
        after@.contains_key(other) == before@.contains_key(other),
        before@.contains_key(other) ==> after@[other] == before@[other],
{
}

/// Decoded query-string parameters, each key at most once.
pub struct QueryMap {
    entries: Vec<(String, String)>,
}

impl QueryMap {
    /// The entries as character sequences, in insertion order.
    pub closed spec fn pairs(&self) -> Seq<(Seq<char>, Seq<char>)> {
        self.entries@.map_values(|e: (String, String)| (e.0@, e.1@))
    }

    #[verifier::type_invariant]
    closed spec fn inv(&self) -> bool {
        keys_distinct(self.pairs())
    }

    /// An empty map.
    pub fn new() -> (res: QueryMap)
        ensures
            res@ == Map::<Seq<char>, Seq<char>>::empty(),
    {
        let res = QueryMap { entries: Vec::new() };
        assert(res.pairs() =~= Seq::<(Seq<char>, Seq<char>)>::empty());
        res
    }

    /// Sets `key` to `value`, replacing an earlier value of `key`.
    pub fn insert(&mut self, key: String, value: String)
        ensures
            final(self)@ == old(self)@.insert(key@, value@),
    {
        proof {
            use_type_invariant(&*self);
        }
        let mut entries: Vec<(String, String)> = Vec::new();
        std::mem::swap(&mut entries, &mut self.entries);
        let ghost p = entries@.map_values(|e: (String, String)| (e.0@, e.1@));
        assert(keys_distinct(p));
        let n = entries.len();
        let mut i: usize = 0;
        while i < n
            invariant
                n == entries.len(),
                i <= n,
                p == entries@.map_values(|e: (String, String)| (e.0@, e.1@)),
                keys_distinct(p),
                p == old(self).pairs(),
                forall|j: int| 0 <= j < i ==> p[j].0 != key@,
            decreases n - i,
        {
            if entries[i].0 == key {
                let ghost old_entries = entries@;
                entries.set(i, (key, value));
                let ghost q = entries@.map_values(|e: (String, String)| (e.0@, e.1@));
                proof {
                    assert(q =~= p.update(i as int, (p[i as int].0, value@)));
                    lemma_pairs_map_update(p, i as int, value@);
                    assert(keys_distinct(q));
                }
                self.entries = entries;
                return;
            }
            i = i + 1;
        }
        entries.push((key, value));
        let ghost q = entries@.map_values(|e: (String, String)| (e.0@, e.1@));
        assert(q =~= p.push((key@, value@)));
        assert(q.drop_last() =~= p);
        self.entries = entries;
    }

    /// The value stored for `key`, if any.
    pub fn get(&self, key: &str) -> (res: Option<&String>)
        ensures
            match res {
                Some(v) => self@.contains_key(key@) && v@ == self@[key@],
                None => !self@.contains_key(key@),
            },
    {
        proof {
            use_type_invariant(self);
        }
        let k = key.to_owned();
        let mut i: usize = 0;
        while i < self.entries.len()
            invariant
                i <= self.entries.len(),
                k@ == key@,
                keys_distinct(self.pairs()),
                forall|j: int| 0 <= j < i ==> self.pairs()[j].0 != key@,
            decreases self.entries.len() - i,
        {
            if self.entries[i].0 == k {
                proof {
                    lemma_pairs_map_index(self.pairs(), i as int);
                }
                return Some(&self.entries[i].1);
            }
            i = i + 1;
        }
        proof {
            lemma_pairs_map_dom(self.pairs(), key@);
        }
        None
    }

    /// The number of keys.
    pub fn len(&self) -> (res: usize)
        ensures
            res == self@.len(),
    {
        proof {
            use_type_invariant(self);
            lemma_pairs_map_len(self.pairs());
        }
        self.entries.len()
    }
}

impl View for QueryMap {
    type V = Map<Seq<char>, Seq<char>>;

    closed spec fn view(&self) -> Map<Seq<char>, Seq<char>> {
        pairs_map(self.pairs())
    }
}

/// Reads one `&`-separated piece of a query string into `map`.
fn insert_segment(map: &mut QueryMap, seg: &Vec<char>)
    ensures
        final(map)@ == add_segment(old(map)@, seg@),
{
    if seg.len() == 0 {
        return;
    }
    let n = seg.len();
    let mut k: usize = 0;
    while k < n && seg[k] != '='
        invariant
            n == seg.len(),
            k <= n,
            forall|t: int| 0 <= t < k ==> seg@[t] != '=',
        decreases n - k,
    {
        k = k + 1;
    }
    proof {
        lemma_first_index(seg@, '=', k as int);
    }
    let key_chars = sub_chars(seg, 0, k);
    assert(key_chars@ == seg@.take(k as int));
    let key = string_from_chars(&decode_chars(&key_chars));
    let value = if k < n {
        let value_chars = sub_chars(seg, k + 1, n);
        assert(value_chars@ == seg@.skip(k + 1));
        string_from_chars(&decode_chars(&value_chars))
    } else {
        String::new()
    };
    map.insert(key, value);
}

/// Splits the query string `q` into decoded key/value pairs.
pub fn parse_query_str(q: &str) -> (res: QueryMap)
    ensures
        res@ == parsed_query(q@),
{
    let cs = chars_of(q);
    let mut map = QueryMap::new();
    let mut cur: Vec<char> = Vec::new();
    let mut i: usize = 0;
    assert(cs@.take(0) =~= Seq::<char>::empty());
    while i < cs.len()
        invariant
            i <= cs.len(),
            split_on(cs@.take(i as int), '&').len() >= 1,
            cur@ == split_on(cs@.take(i as int), '&').last(),
            map@ == segments_map(split_on(cs@.take(i as int), '&').drop_last()),
        decreases cs.len() - i,
    {
        let ghost prev = split_on(cs@.take(i as int), '&');
        let c = cs[i];
        assert(cs@.take(i + 1).drop_last() == cs@.take(i as int));
        assert(cs@.take(i + 1).last() == c);
        if c == '&' {
            insert_segment(&mut map, &cur);
            cur = Vec::new();
            proof {
                let next = split_on(cs@.take(i + 1), '&');
                assert(next == prev.push(Seq::empty()));
                assert(next.drop_last() == prev);
                assert(prev == prev.drop_last().push(prev.last()));
                assert(cur@ == next.last());
            }
        } else {
            cur.push(c);
            proof {
                let next = split_on(cs@.take(i + 1), '&');
                assert(next == prev.update(prev.len() - 1, prev.last().push(c)));
                assert(next.drop_last() =~= prev.drop_last());
                assert(cur@ == next.last());
            }
        }
        i = i + 1;
    }
    insert_segment(&mut map, &cur);
    proof {
        let segs = split_on(cs@.take(i as int), '&');
        assert(cs@.take(i as int) == cs@);
        assert(segs == segs.drop_last().push(segs.last()));
    }
    map
}

} // verus!
