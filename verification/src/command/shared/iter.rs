//! Putting `(index, item)` pairs that arrive out of order back into index
//! order.
use vstd::prelude::*;

verus! {

/// The position of the first pair with index `k`.
pub open spec fn key_pos<T>(buf: Seq<(usize, T)>, k: usize) -> Option<int>
    decreases buf.len(),
{
    if buf.len() == 0 {
        None
    } else {
        match key_pos(buf.drop_last(), k) {
            Some(i) => Some(i),
            None => if buf.last().0 == k { Some(buf.len() - 1) } else { None },
        }
    }
}

/// The position of the first pair with the least index (0 for none).
pub open spec fn min_pos<T>(buf: Seq<(usize, T)>) -> int
    decreases buf.len(),
{
    if buf.len() <= 1 {
        0
    } else {
        let i = min_pos(buf.drop_last());
        if buf.last().0 < buf[i].0 { buf.len() - 1 } else { i }
    }
}

/// The buffer with `item` put under index `k`, replacing an item there.
pub open spec fn buffer_put<T>(buf: Seq<(usize, T)>, k: usize, item: T) -> Seq<(usize, T)> {
    match key_pos(buf, k) {
        Some(i) => buf.update(i, (k, item)),
        None => buf.push((k, item)),
    }
}

/// Where reordering stands: the pairs not read yet, the pairs held back,
/// the index expected next, and whether the input has run out.
pub ghost struct ReorderState<T> {
    pub input: Seq<(usize, T)>,
    pub buffer: Seq<(usize, T)>,
    pub next: usize,
    pub exhausted: bool,
}

/// One step of reordering, with the pair whose item it gives: the held
/// item of the expected index if there is one; else, once the input has
/// run out, the held item of the least index (skipping the gap), or
/// nothing if none is held; else the next pair read: dropped where a later
/// pair of the input has its index (only the last item of an index is
/// kept), else given out if it has the expected index and held back
/// otherwise.
pub open spec fn next_step<T>(s: ReorderState<T>) -> (ReorderState<T>, Option<(usize, T)>)
    decreases s.input.len(), if s.exhausted { 0int } else { 1int },
{
    match key_pos(s.buffer, s.next) {
        Some(i) => (ReorderState { buffer: s.buffer.remove(i), next: (s.next + 1) as usize, ..s }, Some(s.buffer[i])),
        None => if s.exhausted {
            if s.buffer.len() == 0 {
                (s, None)
            } else {
                let i = min_pos(s.buffer);
                (ReorderState { buffer: s.buffer.remove(i), next: (s.buffer[i].0 + 1) as usize, ..s }, Some(s.buffer[i]))
            }
        } else if s.input.len() == 0 {
            next_step(ReorderState { exhausted: true, ..s })
        } else {
            let (idx, item) = s.input[0];
            if key_pos(s.input.drop_first(), idx) is Some {
                next_step(ReorderState { input: s.input.drop_first(), ..s })
            } else if idx == s.next {
                (ReorderState { input: s.input.drop_first(), next: (s.next + 1) as usize, ..s }, Some((idx, item)))
            } else {
                next_step(ReorderState { input: s.input.drop_first(), buffer: buffer_put(s.buffer, idx, item), ..s })
            }
        },
    }
}

/// Whether every index is below `usize::MAX`, so that the one after it
/// exists.
pub open spec fn indices_bounded<T>(v: Seq<(usize, T)>) -> bool {
    forall|i: int| 0 <= i < v.len() ==> #[trigger] v[i].0 < usize::MAX
}

/// Whether no two pairs share an index.
pub open spec fn distinct_indices<T>(v: Seq<(usize, T)>) -> bool {
    forall|i: int, j: int| 0 <= i < j < v.len() ==> #[trigger] v[i].0 != #[trigger] v[j].0
}

/// Reorders `(index, item)` pairs into index order, holding back pairs
/// that come early. An index that never comes is skipped once the input
/// has run out; of pairs with one index only the last is kept.
#[derive(Debug)]
pub struct ReorderByIndex<T> {
    input: Vec<(usize, T)>,
    next: usize,
    buffer: Vec<(usize, T)>,
    exhausted: bool,
}

impl<T> ReorderByIndex<T> {
    #[verifier::type_invariant]
    closed spec fn inv(self) -> bool {
        &&& indices_bounded(self.input@)
        &&& indices_bounded(self.buffer@)
        &&& distinct_indices(self.buffer@)
        &&& self.exhausted ==> self.input@.len() == 0
    }

    /// Where reordering stands.
    pub closed spec fn state(&self) -> ReorderState<T> {
        ReorderState { input: self.input@, buffer: self.buffer@, next: self.next, exhausted: self.exhausted }
    }

    /// Reorders `input` from index 0.
    pub fn new(input: Vec<(usize, T)>) -> (r: Self)
        requires
            indices_bounded(input@),
        ensures
            r.state() == (ReorderState::<T> { input: input@, buffer: Seq::empty(), next: 0, exhausted: false }),
    {
        Self::with_start(input, 0)
    }

    /// Reorders `input` from index `start`.
    pub fn with_start(input: Vec<(usize, T)>, start: usize) -> (r: Self)
        requires
            indices_bounded(input@),
        ensures
            r.state() == (ReorderState::<T> { input: input@, buffer: Seq::empty(), next: start, exhausted: false }),
    {
        ReorderByIndex { input, next: start, buffer: Vec::new(), exhausted: false }
    }
}

/// A found index is the index of its position; a missing one is at no
/// position.
pub proof fn lemma_key_pos<T>(buf: Seq<(usize, T)>, k: usize)
    ensures
        key_pos(buf, k) matches Some(i) ==> 0 <= i < buf.len() && buf[i].0 == k,
        key_pos(buf, k) is None ==> forall|j: int| 0 <= j < buf.len() ==> #[trigger] buf[j].0 != k,
    decreases buf.len(),
{
    if buf.len() > 0 {
        lemma_key_pos(buf.drop_last(), k);
        if key_pos(buf.drop_last(), k) is None {
            assert forall|j: int| 0 <= j < buf.len() - 1 implies #[trigger] buf[j].0 != k by {
                assert(buf.drop_last()[j] == buf[j]);
            }
        } else {
            let i = key_pos(buf.drop_last(), k)->0;
            assert(buf.drop_last()[i] == buf[i]);
        }
    }
}

/// The position of the least index lies in the buffer and holds an index
/// no greater than any other.
pub proof fn lemma_min_pos<T>(buf: Seq<(usize, T)>)
    requires
        buf.len() > 0,
    ensures
        0 <= min_pos(buf) < buf.len(),
        forall|j: int| 0 <= j < buf.len() ==> buf[min_pos(buf)].0 <= #[trigger] buf[j].0,
    decreases buf.len(),
{
    if buf.len() > 1 {
        lemma_min_pos(buf.drop_last());
        let i = min_pos(buf.drop_last());
        assert(buf.drop_last()[i] == buf[i]);
        assert forall|j: int| 0 <= j < buf.len() implies buf[min_pos(buf)].0 <= #[trigger] buf[j].0 by {
            if j < buf.len() - 1 {
                assert(buf.drop_last()[j] == buf[j]);
            }
        }
    }
}

/// The position of index `k` in the buffer.
fn find_key<T>(buf: &Vec<(usize, T)>, k: usize) -> (r: Option<usize>)
    ensures
        r matches Some(i) ==> key_pos(buf@, k) == Some(i as int),
        r is None ==> key_pos(buf@, k) is None,
{
    let ghost l = buf@;
    let mut i: usize = 0;
    while i < buf.len()
        invariant
            i <= buf.len(),
            l == buf@,
            key_pos(l.take(i as int), k) is None,
        decreases buf.len() - i,
    {
        assert(l.take(i + 1).drop_last() =~= l.take(i as int));
        if buf[i].0 == k {
            proof { lemma_key_pos_prefix(l, (i + 1) as nat, k); }
            return Some(i);
        }
        i = i + 1;
    }
    assert(l.take(buf.len() as int) =~= l);
    None
}

/// An index found in a prefix is found there in the whole.
proof fn lemma_key_pos_prefix<T>(l: Seq<(usize, T)>, n: nat, k: usize)
    requires
        n <= l.len(),
        key_pos(l.take(n as int), k) is Some,
    ensures
        key_pos(l, k) == key_pos(l.take(n as int), k),
    decreases l.len(),
{
    if l.len() == n {
        assert(l.take(n as int) =~= l);
    } else {
        assert(l.drop_last().take(n as int) =~= l.take(n as int));
        lemma_key_pos_prefix(l.drop_last(), n, k);
    }
}

/// The position of the least index in a buffer that is not empty.
fn find_min<T>(buf: &Vec<(usize, T)>) -> (r: usize)
    requires
        buf.len() > 0,
    ensures
        r == min_pos(buf@),
{
    let ghost l = buf@;
    let mut best: usize = 0;
    let mut i: usize = 1;
    assert(l.take(1).len() == 1);
    while i < buf.len()
        invariant
            1 <= i <= buf.len(),
            l == buf@,
            best == min_pos(l.take(i as int)),
            best < i,
        decreases buf.len() - i,
    {
        assert(l.take(i + 1).drop_last() =~= l.take(i as int));
        assert(l.take(i as int)[best as int] == l[best as int]);
        if buf[i].0 < buf[best].0 {
            best = i;
        }
        i = i + 1;
    }
    assert(l.take(buf.len() as int) =~= l);
    best
}

impl<T> ReorderByIndex<T> {
    /// The next item in index order, or `None` once every item is out.
    pub fn next(&mut self) -> (r: Option<T>)
        ensures
            final(self).state() == next_step(old(self).state()).0,
            r == match next_step(old(self).state()).1 {
                Some(p) => Some(p.1),
                None => None,
            },
    {
        proof { use_type_invariant(&*self); }
        let ghost start = self.state();
        let mut input: Vec<(usize, T)> = Vec::new();
        let mut buffer: Vec<(usize, T)> = Vec::new();
        std::mem::swap(&mut input, &mut self.input);
        std::mem::swap(&mut buffer, &mut self.buffer);
        let mut next = self.next;
        let mut exhausted = self.exhausted;
        let result: Option<(usize, T)>;
        loop
            invariant_except_break
                next_step(ReorderState { input: input@, buffer: buffer@, next, exhausted }) == next_step(start),
            invariant
                indices_bounded(input@),
                indices_bounded(buffer@),
                distinct_indices(buffer@),
                exhausted ==> input@.len() == 0,
            ensures
                indices_bounded(input@),
                indices_bounded(buffer@),
                distinct_indices(buffer@),
                exhausted ==> input@.len() == 0,
                (ReorderState { input: input@, buffer: buffer@, next, exhausted }, result) == next_step(start),
            decreases input@.len(), if exhausted { 0int } else { 1int },
        {
            let ghost cur = ReorderState { input: input@, buffer: buffer@, next, exhausted };
            proof { lemma_key_pos(buffer@, next); }
            match find_key(&buffer, next) {
                Some(i) => {
                    let (k, item) = buffer.remove(i);
                    next = next + 1;
                    result = Some((k, item));
                    break;
                },
                None => {},
            }
            if exhausted {
                if buffer.len() == 0 {
                    result = None;
                    break;
                }
                let i = find_min(&buffer);
                proof { lemma_min_pos(buffer@); }
                let (k, item) = buffer.remove(i);
                next = k + 1;
                result = Some((k, item));
                break;
            }
            if input.len() == 0 {
                exhausted = true;
            } else {
                let (idx, item) = input.remove(0);
                if find_key(&input, idx).is_some() {
                    continue;
                }
                if idx == next {
                    next = next + 1;
                    result = Some((idx, item));
                    break;
                }
                proof { lemma_key_pos(buffer@, idx); }
                match find_key(&buffer, idx) {
                    Some(j) => {
                        let ghost b = buffer@;
                        buffer.set(j, (idx, item));
                        assert(distinct_indices(buffer@)) by {
                            assert forall|a: int, c: int| 0 <= a < c < buffer@.len() implies #[trigger] buffer@[a].0 != #[trigger] buffer@[c].0 by {
                                assert(b[a].0 != b[c].0);
                            }
                        }
                    },
                    None => {
                        buffer.push((idx, item));
                    },
                }
            }
        }
        proof { assert(input@.len() >= 0); }
        self.input = input;
        self.buffer = buffer;
        self.next = next;
        self.exhausted = exhausted;
        match result {
            Some((_, item)) => Some(item),
            None => None,
        }
    }
}

/// How many pairs are left, read or not.
pub open spec fn pairs_left<T>(s: ReorderState<T>) -> nat {
    s.input.len() + s.buffer.len()
}

/// A step that gives an item leaves fewer pairs; a step that gives none
/// finds no pair left.
pub proof fn lemma_step_shrinks<T>(s: ReorderState<T>)
    requires
        s.exhausted ==> s.input.len() == 0,
    ensures
        next_step(s).1 is Some ==> pairs_left(next_step(s).0) < pairs_left(s),
        next_step(s).1 is None ==> pairs_left(s) == 0,
        next_step(s).0.exhausted ==> next_step(s).0.input.len() == 0,
    decreases s.input.len(), if s.exhausted { 0int } else { 1int },
{
    lemma_key_pos(s.buffer, s.next);
    match key_pos(s.buffer, s.next) {
        Some(i) => {},
        None => if s.exhausted {
            if s.buffer.len() > 0 {
                lemma_min_pos(s.buffer);
            }
        } else if s.input.len() == 0 {
            lemma_step_shrinks(ReorderState { exhausted: true, ..s });
        } else {
            let (idx, item) = s.input[0];
            if key_pos(s.input.drop_first(), idx) is Some {
                let t = ReorderState { input: s.input.drop_first(), ..s };
                lemma_key_pos(s.input.drop_first(), idx);
                lemma_step_shrinks(t);
            } else if idx != s.next {
                let t = ReorderState { input: s.input.drop_first(), buffer: buffer_put(s.buffer, idx, item), ..s };
                lemma_key_pos(s.buffer, idx);
                lemma_step_shrinks(t);
                assert(t.buffer.len() > 0);
            }
        },
    }
}

/// Everything that reordering gives, in order, until it gives nothing.
pub open spec fn drained<T>(s: ReorderState<T>) -> Seq<T>
    decreases pairs_left(s),
{
    if s.exhausted ==> s.input.len() == 0 {
        proof {
            lemma_step_shrinks(s);
        }
        match next_step(s).1 {
            Some(p) => seq![p.1] + drained(next_step(s).0),
            None => Seq::empty(),
        }
    } else {
        Seq::empty()
    }
}

/// The pairs given out, in order, until none is given.
pub open spec fn drained_pairs<T>(s: ReorderState<T>) -> Seq<(usize, T)>
    decreases pairs_left(s),
{
    if s.exhausted ==> s.input.len() == 0 {
        proof {
            lemma_step_shrinks(s);
        }
        match next_step(s).1 {
            Some(p) => seq![p] + drained_pairs(next_step(s).0),
            None => Seq::empty(),
        }
    } else {
        Seq::empty()
    }
}

/// The pairs of `v` that no later pair of `v` replaces: of pairs with one
/// index, only the last.
pub open spec fn last_pairs<T>(v: Seq<(usize, T)>) -> Seq<(usize, T)>
    decreases v.len(),
{
    if v.len() == 0 {
        Seq::empty()
    } else if key_pos(v.drop_first(), v[0].0) is Some {
        last_pairs(v.drop_first())
    } else {
        seq![v[0]] + last_pairs(v.drop_first())
    }
}

/// The pairs kept are pairs of `v`, no two with one index.
pub proof fn lemma_last_pairs<T>(v: Seq<(usize, T)>)
    ensures
        forall|k: int|
            0 <= k < last_pairs(v).len() ==> exists|j: int| 0 <= j < v.len() && v[j] == #[trigger] last_pairs(v)[k],
        distinct_indices(last_pairs(v)),
    decreases v.len(),
{
    if v.len() > 0 {
        let rest = v.drop_first();
        lemma_last_pairs(rest);
        let l = last_pairs(rest);
        assert forall|k: int| 0 <= k < l.len() implies exists|j: int| 0 <= j < v.len() && v[j] == #[trigger] l[k] by {
            let j = choose|j: int| 0 <= j < rest.len() && rest[j] == l[k];
            assert(v[j + 1] == rest[j]);
        }
        if key_pos(rest, v[0].0) is None {
            lemma_key_pos(rest, v[0].0);
            let w = seq![v[0]] + l;
            assert forall|k: int| 0 <= k < w.len() implies exists|j: int| 0 <= j < v.len() && v[j] == #[trigger] w[k] by {
                if k == 0 {
                    assert(v[0] == w[0]);
                } else {
                    assert(w[k] == l[k - 1]);
                }
            }
            assert forall|a: int, c: int| 0 <= a < c < w.len() implies #[trigger] w[a].0 != #[trigger] w[c].0 by {
                assert(w[c] == l[c - 1]);
                let j = choose|j: int| 0 <= j < rest.len() && rest[j] == l[c - 1];
                if a == 0 {
                    assert(rest[j].0 != v[0].0);
                } else {
                    assert(w[a] == l[a - 1]);
                }
            }
        }
    }
}

/// With no two pairs of one index, every pair is kept.
pub proof fn lemma_last_pairs_distinct<T>(v: Seq<(usize, T)>)
    requires
        distinct_indices(v),
    ensures
        last_pairs(v) == v,
    decreases v.len(),
{
    if v.len() > 0 {
        let rest = v.drop_first();
        assert(distinct_indices(rest)) by {
            assert forall|a: int, c: int| 0 <= a < c < rest.len() implies #[trigger] rest[a].0 != #[trigger] rest[c].0 by {
                assert(v[a + 1].0 != v[c + 1].0);
            }
        }
        lemma_last_pairs_distinct(rest);
        lemma_key_pos(rest, v[0].0);
        if key_pos(rest, v[0].0) is Some {
            let i = key_pos(rest, v[0].0)->0;
            assert(v[i + 1].0 != v[0].0);
        }
        assert(seq![v[0]] + rest =~= v);
    }
}

/// The pairs still to give out: those held back, then those not read that
/// no later pair replaces.
pub open spec fn pairs_of<T>(s: ReorderState<T>) -> Seq<(usize, T)> {
    s.buffer + last_pairs(s.input)
}

/// Whether reordering goes on in index order from `s`: no two pairs left
/// share an index, none lies before the expected index, each index has one
/// after it, and nothing is left to read once the input has run out.
pub open spec fn orderly<T>(s: ReorderState<T>) -> bool {
    &&& distinct_indices(pairs_of(s))
    &&& forall|i: int| 0 <= i < pairs_of(s).len() ==> s.next <= #[trigger] pairs_of(s)[i].0
    &&& indices_bounded(pairs_of(s))
    &&& s.exhausted ==> s.input.len() == 0
}

/// Whether a step from `s` to `t` gave out `p`, the pair with the least
/// index left, and goes on in index order after it.
pub open spec fn gives_least<T>(s: ReorderState<T>, t: ReorderState<T>, p: (usize, T)) -> bool {
    &&& pairs_of(s).to_multiset().count(p) > 0
    &&& pairs_of(t).to_multiset() == pairs_of(s).to_multiset().remove(p)
    &&& orderly(t)
    &&& t.next == p.0 + 1
}

/// Taking out the pair at position `i`, whose index is the least, leaves
/// distinct indices, each after it, and the multiset without that pair.
proof fn lemma_remove_orderly<T>(all: Seq<(usize, T)>, i: int)
    requires
        0 <= i < all.len(),
        distinct_indices(all),
        indices_bounded(all),
        forall|j: int| 0 <= j < all.len() ==> all[i].0 <= #[trigger] all[j].0,
    ensures
        distinct_indices(all.remove(i)),
        indices_bounded(all.remove(i)),
        forall|j: int| 0 <= j < all.remove(i).len() ==> all[i].0 + 1 <= #[trigger] all.remove(i)[j].0,
        all.remove(i).to_multiset() == all.to_multiset().remove(all[i]),
        all.to_multiset().count(all[i]) > 0,
{
    broadcast use vstd::seq_lib::group_to_multiset_ensures;
    let r = all.remove(i);
    assert forall|j: int| 0 <= j < r.len() implies (#[trigger] r[j]) == if j < i { all[j] } else { all[j + 1] } by {}
    assert forall|a: int, c: int| 0 <= a < c < r.len() implies #[trigger] r[a].0 != #[trigger] r[c].0 by {
        let a2 = if a < i { a } else { a + 1 };
        let c2 = if c < i { c } else { c + 1 };
        assert(all[a2].0 != all[c2].0);
    }
    assert forall|j: int| 0 <= j < r.len() implies #[trigger] r[j].0 < usize::MAX by {
        let j2 = if j < i { j } else { j + 1 };
        assert(all[j2].0 < usize::MAX);
    }
    assert forall|j: int| 0 <= j < r.len() implies all[i].0 + 1 <= #[trigger] r[j].0 by {
        let j2 = if j < i { j } else { j + 1 };
        assert(all[i].0 != all[j2].0);
        assert(all[i].0 <= all[j2].0);
    }
    vstd::seq_lib::to_multiset_remove(all, i);
    assert(all.contains(all[i]));
}

/// A step from an orderly state gives out the pair with the least index
/// left, or nothing exactly when no pair is left.
pub proof fn lemma_step_in_order<T>(s: ReorderState<T>)
    requires
        orderly(s),
    ensures
        next_step(s).1 is None <==> pairs_of(s).len() == 0,
        next_step(s).1 matches Some(p) ==> gives_least(s, next_step(s).0, p),
    decreases s.input.len(), if s.exhausted { 0int } else { 1int },
{
    let all = pairs_of(s);
    lemma_key_pos(s.buffer, s.next);
    match key_pos(s.buffer, s.next) {
        Some(i) => {
            assert(all[i] == s.buffer[i]);
            assert(s.buffer.remove(i) + last_pairs(s.input) =~= all.remove(i));
            lemma_remove_orderly(all, i);
        },
        None => if s.exhausted {
            if s.buffer.len() > 0 {
                let i = min_pos(s.buffer);
                lemma_min_pos(s.buffer);
                assert(last_pairs(s.input) =~= Seq::<(usize, T)>::empty());
                assert(all =~= s.buffer);
                assert(s.buffer.remove(i) + last_pairs(s.input) =~= all.remove(i));
                lemma_remove_orderly(all, i);
            } else {
                assert(all.len() == 0);
            }
        } else if s.input.len() == 0 {
            lemma_step_in_order(ReorderState { exhausted: true, ..s });
        } else {
            let (idx, item) = s.input[0];
            let b = s.buffer.len() as int;
            let rest = s.input.drop_first();
            if key_pos(rest, idx) is Some {
                let t = ReorderState { input: rest, ..s };
                assert(pairs_of(t) =~= all);
                lemma_step_in_order(t);
            } else {
                assert(last_pairs(s.input) == seq![s.input[0]] + last_pairs(rest));
                assert(all[b] == s.input[0]);
                if idx == s.next {
                    assert(s.buffer + last_pairs(rest) =~= all.remove(b));
                    assert forall|j: int| 0 <= j < all.len() implies all[b].0 <= #[trigger] all[j].0 by {}
                    lemma_remove_orderly(all, b);
                } else {
                    lemma_key_pos(s.buffer, idx);
                    assert forall|j: int| 0 <= j < s.buffer.len() implies #[trigger] s.buffer[j].0 != idx by {
                        assert(all[j] == s.buffer[j]);
                        assert(all[j].0 != all[b].0);
                    }
                    let t = ReorderState { input: s.input.drop_first(), buffer: buffer_put(s.buffer, idx, item), ..s };
                    assert(pairs_of(t) =~= all);
                    lemma_step_in_order(t);
                }
            }
        },
    }
}

/// The state reordering starts in.
pub open spec fn initial_state<T>(input: Seq<(usize, T)>, start: usize) -> ReorderState<T> {
    ReorderState { input, buffer: Seq::empty(), next: start, exhausted: false }
}

/// From an orderly state, the pairs given out are the pairs left, each
/// once, in strictly ascending index order from the expected index on, and
/// the items given are theirs.
pub proof fn lemma_drained_in_order<T>(s: ReorderState<T>)
    requires
        orderly(s),
    ensures
        drained_pairs(s).to_multiset() == pairs_of(s).to_multiset(),
        forall|i: int, j: int|
            0 <= i < j < drained_pairs(s).len() ==> (#[trigger] drained_pairs(s)[i]).0 < (
            #[trigger] drained_pairs(s)[j]).0,
        forall|k: int| 0 <= k < drained_pairs(s).len() ==> s.next <= (#[trigger] drained_pairs(s)[k]).0,
        drained(s) == drained_pairs(s).map_values(|p: (usize, T)| p.1),
    decreases pairs_left(s),
{
    broadcast use vstd::seq_lib::group_to_multiset_ensures;
    lemma_step_shrinks(s);
    lemma_step_in_order(s);
    match next_step(s).1 {
        None => {
            assert(pairs_of(s) =~= Seq::<(usize, T)>::empty());
            assert(drained_pairs(s) =~= Seq::<(usize, T)>::empty());
            assert(drained(s) =~= Seq::<T>::empty());
            assert(drained_pairs(s).map_values(|p: (usize, T)| p.1) =~= Seq::<T>::empty());
        },
        Some(p) => {
            let t = next_step(s).0;
            lemma_drained_in_order(t);
            let d = drained_pairs(s);
            let dt = drained_pairs(t);
            assert(d == seq![p] + dt);
            assert(pairs_of(s).contains(p));
            let w = choose|w: int| 0 <= w < pairs_of(s).len() && pairs_of(s)[w] == p;
            assert(s.next <= pairs_of(s)[w].0);
            vstd::seq_lib::lemma_multiset_commutative(seq![p], dt);
            assert(seq![p].to_multiset() =~= vstd::multiset::Multiset::<(usize, T)>::empty().insert(p)) by {
                assert(seq![p] =~= Seq::<(usize, T)>::empty().push(p));
            }
            assert(d.to_multiset() =~= pairs_of(s).to_multiset());
            assert forall|i: int, j: int| 0 <= i < j < d.len() implies (#[trigger] d[i]).0 < (#[trigger] d[j]).0 by {
                assert(d[j] == dt[j - 1]);
                if i > 0 {
                    assert(d[i] == dt[i - 1]);
                }
            }
            assert forall|k: int| 0 <= k < d.len() implies s.next <= (#[trigger] d[k]).0 by {
                if k > 0 {
                    assert(d[k] == dt[k - 1]);
                }
            }
            assert(drained(s) == seq![p.1] + drained(t));
            assert(d.map_values(|q: (usize, T)| q.1) =~= seq![p.1] + dt.map_values(|q: (usize, T)| q.1));
        },
    }
}

/// Reordering gives every item once, in index order, keeping of pairs
/// with one index only the last: for pairs none of which lies before
/// `start`, the pairs that come out are the last pair of each index
/// (`last_pairs`), sorted by ascending index, and the items reordering
/// gives are theirs. Pairs with distinct indices all come out.
pub proof fn reorder_gives_index_order<T>(input: Seq<(usize, T)>, start: usize)
    requires
        indices_bounded(input),
        forall|i: int| 0 <= i < input.len() ==> start <= #[trigger] input[i].0,
    ensures
        drained_pairs(initial_state(input, start)).to_multiset() == last_pairs(input).to_multiset(),
        forall|i: int, j: int|
            0 <= i < j < drained_pairs(initial_state(input, start)).len() ==> (#[trigger] drained_pairs(
                initial_state(input, start),
            )[i]).0 < (#[trigger] drained_pairs(initial_state(input, start))[j]).0,
        drained(initial_state(input, start)) == drained_pairs(initial_state(input, start)).map_values(
            |p: (usize, T)| p.1,
        ),
        distinct_indices(input) ==> last_pairs(input) == input,
{
    let s = initial_state(input, start);
    let l = last_pairs(input);
    lemma_last_pairs(input);
    assert(pairs_of(s) =~= l);
    assert forall|k: int| 0 <= k < l.len() implies start <= #[trigger] l[k].0 && l[k].0 < usize::MAX by {
        let j = choose|j: int| 0 <= j < input.len() && input[j] == l[k];
        assert(start <= input[j].0);
        assert(input[j].0 < usize::MAX);
    }
    lemma_drained_in_order(s);
    if distinct_indices(input) {
        lemma_last_pairs_distinct(input);
    }
}

impl<T> ReorderByIndex<T> {
    /// Every item, in the order reordering gives them.
    pub fn collect(self) -> (r: Vec<T>)
        ensures
            r@ == drained(self.state()),
    {
        let mut this = self;
        proof { use_type_invariant(&this); }
        let ghost start = this.state();
        let mut out: Vec<T> = Vec::new();
        loop
            invariant_except_break
                out@ + drained(this.state()) == drained(start),
            invariant
                this.state().exhausted ==> this.state().input.len() == 0,
            ensures
                out@ == drained(start),
            decreases pairs_left(this.state()),
        {
            let ghost before = this.state();
            proof { lemma_step_shrinks(before); }
            match this.next() {
                Some(x) => {
                    proof {
                        assert(drained(before) == seq![x] + drained(this.state()));
                    }
                    let ghost prev = out@;
                    out.push(x);
                    assert(out@ + drained(this.state()) =~= prev + drained(before));
                },
                None => {
                    assert(drained(before) =~= Seq::<T>::empty());
                    assert(out@ + drained(before) =~= out@);
                    break;
                },
            }
        }
        out
    }
}

} // verus!
