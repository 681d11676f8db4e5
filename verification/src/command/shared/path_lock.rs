//! Per-path ordering of writes during concurrent extraction: sequence
//! numbers handed out per path in archive order, and the decisions of the
//! workers that wait for their turn.
use vstd::prelude::*;
use crate::text::{
    chars_eq, chars_of, join_chars, join_with, piece_at, push_all, push_piece, split_chars, split_on,
    string_from_chars,
};

verus! {

/// Whether a piece between separators names a component: it is not empty
/// and not `.`.
pub open spec fn is_normal_piece(p: Seq<char>) -> bool {
    p.len() > 0 && p != seq!['.']
}

/// The pieces that name components, in order.
pub open spec fn normal_pieces(ps: Seq<Seq<char>>) -> Seq<Seq<char>>
    decreases ps.len(),
{
    if ps.len() == 0 {
        Seq::empty()
    } else if is_normal_piece(ps.last()) {
        normal_pieces(ps.drop_last()).push(ps.last())
    } else {
        normal_pieces(ps.drop_last())
    }
}

/// The text a path is registered under: its components as a path compares
/// them, written out one way. A leading `/` stands for the root, a leading
/// `./` for a path that starts at the current directory; then the other
/// components joined by `/`, with empty pieces (repeated or trailing
/// separators) and inner `.` pieces left out. So `a/b`, `a//b`, `a/./b` and
/// `a/b/` are one path, and `/a`, `./a` and `a` three.
pub open spec fn path_key(s: Seq<char>) -> Seq<char> {
    let ps = split_on(s, '/');
    let rooted = s.len() > 0 && s[0] == '/';
    let curdir = !rooted && ps.len() > 0 && ps[0] == seq!['.'];
    let head: Seq<char> = if rooted {
        seq!['/']
    } else if curdir {
        seq!['.', '/']
    } else {
        Seq::empty()
    };
    head + join_with(normal_pieces(ps), '/')
}

/// The text a path is registered under, `path_key` says which.
pub fn path_key_text(path: &str) -> (r: String)
    ensures
        r@ == path_key(path@),
{
    let cs = chars_of(path);
    let pieces = split_chars(cs.as_slice(), '/');
    let ghost ps = split_on(path@, '/');
    let rooted = cs.len() > 0 && cs[0] == '/';
    let curdir = !rooted && pieces.len() > 0 && pieces[0].len() == 1 && pieces[0][0] == '.';
    proof {
        if pieces.len() > 0 {
            assert(ps[0] == pieces@[0]@);
            if pieces@[0]@.len() == 1 && pieces@[0]@[0] == '.' {
                assert(ps[0] =~= seq!['.']);
            }
        }
    }
    let mut normals: Vec<Vec<char>> = Vec::new();
    let mut i: usize = 0;
    while i < pieces.len()
        invariant
            i <= pieces.len(),
            pieces.deep_view() == ps,
            normals.deep_view() == normal_pieces(ps.take(i as int)),
        decreases pieces.len() - i,
    {
        assert(ps.take(i + 1).drop_last() =~= ps.take(i as int));
        assert(ps[i as int] == pieces@[i as int]@);
        let p = piece_at(&pieces, i);
        if p.len() > 0 && !(p.len() == 1 && p[0] == '.') {
            push_piece(&mut normals, p);
        } else {
            assert(!is_normal_piece(ps[i as int])) by {
                if p@.len() > 0 {
                    assert(p@ =~= seq!['.']);
                }
            }
        }
        i = i + 1;
    }
    assert(ps.take(pieces.len() as int) =~= ps);
    let joined = join_chars(&normals, '/');
    let mut out: Vec<char> = Vec::new();
    if rooted {
        out.push('/');
    } else if curdir {
        out.push('.');
        out.push('/');
    }
    let ghost head = out@;
    push_all(&mut out, joined.as_slice());
    proof {
        let rooted_s = path@.len() > 0 && path@[0] == '/';
        assert(rooted == rooted_s);
        if rooted {
            assert(head =~= seq!['/']);
        } else if curdir {
            assert(head =~= seq!['.', '/']);
        } else {
            assert(head =~= Seq::<char>::empty());
        }
        assert(out@ =~= path_key(path@));
    }
    string_from_chars(out.as_slice())
}

/// The position of the first record of path `p`.
pub open spec fn path_pos(v: Seq<(Seq<char>, usize)>, p: Seq<char>) -> Option<int>
    decreases v.len(),
{
    if v.len() == 0 {
        None
    } else {
        match path_pos(v.drop_last(), p) {
            Some(i) => Some(i),
            None => if v.last().0 == p { Some(v.len() - 1) } else { None },
        }
    }
}

/// How many writes to `p` have been registered.
pub open spec fn registered(v: Seq<(Seq<char>, usize)>, p: Seq<char>) -> usize {
    match path_pos(v, p) {
        Some(i) => v[i].1,
        None => 0,
    }
}

/// The records after one more write to `p` is registered.
pub open spec fn after_register(v: Seq<(Seq<char>, usize)>, p: Seq<char>) -> Seq<(Seq<char>, usize)> {
    match path_pos(v, p) {
        Some(i) => v.update(i, (p, (v[i].1 + 1) as usize)),
        None => v.push((p, 1)),
    }
}

/// Sequence numbers per path: the next number of each path registered so
/// far.
#[derive(Debug, Default)]
pub struct PathRegistry {
    entries: Vec<(String, usize)>,
}

impl View for PathRegistry {
    type V = Seq<(Seq<char>, usize)>;

    closed spec fn view(&self) -> Seq<(Seq<char>, usize)> {
        Seq::new(self.entries@.len(), |i: int| (self.entries@[i].0@, self.entries@[i].1))
    }
}

/// A found path is the path of its position.
pub proof fn lemma_path_pos(v: Seq<(Seq<char>, usize)>, p: Seq<char>)
    ensures
        path_pos(v, p) matches Some(i) ==> 0 <= i < v.len() && v[i].0 == p,
    decreases v.len(),
{
    if v.len() > 0 {
        lemma_path_pos(v.drop_last(), p);
    }
}

/// A path found in a prefix is found there in the whole.
proof fn lemma_path_pos_prefix(v: Seq<(Seq<char>, usize)>, n: nat, p: Seq<char>)
    requires
        n <= v.len(),
        path_pos(v.take(n as int), p) is Some,
    ensures
        path_pos(v, p) == path_pos(v.take(n as int), p),
    decreases v.len(),
{
    if v.len() == n {
        assert(v.take(n as int) =~= v);
    } else {
        assert(v.drop_last().take(n as int) =~= v.take(n as int));
        lemma_path_pos_prefix(v.drop_last(), n, p);
    }
}

/// Changing the count of a record leaves every path where it was.
proof fn lemma_path_pos_update(v: Seq<(Seq<char>, usize)>, i: int, x: usize, q: Seq<char>)
    requires
        0 <= i < v.len(),
    ensures
        path_pos(v.update(i, (v[i].0, x)), q) == path_pos(v, q),
    decreases v.len(),
{
    let w = v.update(i, (v[i].0, x));
    if i == v.len() - 1 {
        assert(w.drop_last() =~= v.drop_last());
    } else {
        assert(w.drop_last() =~= v.drop_last().update(i, (v[i].0, x)));
        assert(v.drop_last()[i] == v[i]);
        lemma_path_pos_update(v.drop_last(), i, x, q);
    }
}

/// Writes to one path are numbered 0, 1, 2, and so on in the order they
/// are registered: registering a write to `p` moves the count of `p` on
/// by one and leaves the count of every other path as it is.
pub proof fn registration_numbers_per_path(v: Seq<(Seq<char>, usize)>, p: Seq<char>, q: Seq<char>)
    requires
        registered(v, p) < usize::MAX,
    ensures
        registered(after_register(v, p), p) == registered(v, p) + 1,
        q != p ==> registered(after_register(v, p), q) == registered(v, q),
{
    lemma_path_pos(v, p);
    lemma_path_pos(v, q);
    match path_pos(v, p) {
        Some(i) => {
            lemma_path_pos_update(v, i, (v[i].1 + 1) as usize, p);
            lemma_path_pos_update(v, i, (v[i].1 + 1) as usize, q);
        },
        None => {
            let w = v.push((p, 1usize));
            assert(w.drop_last() =~= v);
        },
    }
}

/// The records after writes to the paths of `ps` are registered in order,
/// from an empty registry.
pub open spec fn registered_all(ps: Seq<Seq<char>>) -> Seq<(Seq<char>, usize)>
    decreases ps.len(),
{
    if ps.len() == 0 {
        Seq::empty()
    } else {
        after_register(registered_all(ps.drop_last()), ps.last())
    }
}

/// How many entries of `ps` are `p`.
pub open spec fn occurrences(ps: Seq<Seq<char>>, p: Seq<char>) -> nat
    decreases ps.len(),
{
    if ps.len() == 0 {
        0
    } else {
        occurrences(ps.drop_last(), p) + if ps.last() == p { 1nat } else { 0nat }
    }
}

/// After writes to the paths of `ps` are registered in order, each path's
/// count is how many of them went to it.
proof fn lemma_registered_all(ps: Seq<Seq<char>>, q: Seq<char>)
    requires
        ps.len() < usize::MAX,
    ensures
        registered(registered_all(ps), q) == occurrences(ps, q),
        occurrences(ps, q) <= ps.len(),
    decreases ps.len(),
{
    if ps.len() > 0 {
        let init = ps.drop_last();
        lemma_registered_all(init, q);
        lemma_registered_all(init, ps.last());
        registration_numbers_per_path(registered_all(init), ps.last(), q);
    }
}

/// Registering writes one after another numbers each path's writes 0, 1,
/// 2, and so on, whatever other paths come between: the write at position
/// `k` gets the number of earlier writes to its path, so a path's first
/// write gets 0.
pub proof fn registration_sequence(ps: Seq<Seq<char>>, k: int)
    requires
        ps.len() < usize::MAX,
        0 <= k < ps.len(),
    ensures
        registered(registered_all(ps.take(k)), ps[k]) == occurrences(ps.take(k), ps[k]),
        (forall|j: int| 0 <= j < k ==> #[trigger] ps[j] != ps[k]) ==> registered(registered_all(ps.take(k)), ps[k]) == 0,
{
    lemma_registered_all(ps.take(k), ps[k]);
    if forall|j: int| 0 <= j < k ==> #[trigger] ps[j] != ps[k] {
        lemma_no_occurrences(ps.take(k), ps[k]);
    }
}

/// A path that is none of `ps` occurs there no time.
proof fn lemma_no_occurrences(ps: Seq<Seq<char>>, p: Seq<char>)
    requires
        forall|j: int| 0 <= j < ps.len() ==> #[trigger] ps[j] != p,
    ensures
        occurrences(ps, p) == 0,
    decreases ps.len(),
{
    if ps.len() > 0 {
        let init = ps.drop_last();
        assert forall|j: int| 0 <= j < init.len() implies #[trigger] init[j] != p by {
            assert(init[j] == ps[j]);
        }
        lemma_no_occurrences(init, p);
        assert(ps.last() == ps[ps.len() - 1]);
    }
}

impl PathRegistry {
    /// A registry with nothing registered.
    pub fn new() -> (r: Self)
        ensures
            r@ == Seq::<(Seq<char>, usize)>::empty(),
    {
        let r = PathRegistry { entries: Vec::new() };
        assert(r@ =~= Seq::<(Seq<char>, usize)>::empty());
        r
    }

    /// How many writes to the path `path` have been registered, the path
    /// taken by its components (`path_key`): the number the next one gets.
    pub fn registered_count(&self, path: &str) -> (r: usize)
        ensures
            r == registered(self@, path_key(path@)),
    {
        let key = path_key_text(path);
        self.registered_count_key(key.as_str())
    }

    /// How many writes under the text `path` have been registered.
    fn registered_count_key(&self, path: &str) -> (r: usize)
        ensures
            r == registered(self@, path@),
    {
        let ghost v = self@;
        let pc = chars_of(path);
        let mut i: usize = 0;
        while i < self.entries.len()
            invariant
                i <= self.entries.len(),
                v == self@,
                pc@ == path@,
                path_pos(v.take(i as int), path@) is None,
            decreases self.entries.len() - i,
        {
            assert(v.take(i + 1).drop_last() =~= v.take(i as int));
            let name = chars_of(self.entries[i].0.as_str());
            assert(v[i as int].0 == self.entries@[i as int].0@);
            if chars_eq(name.as_slice(), pc.as_slice()) {
                proof {
                    lemma_path_pos_prefix(v, (i + 1) as nat, path@);
                    lemma_path_pos(v, path@);
                }
                return self.entries[i].1;
            }
            i = i + 1;
        }
        assert(v.take(self.entries.len() as int) =~= v);
        0
    }

    /// Registers an upcoming write to the path `path` and gives its
    /// sequence number: the number of writes to that path registered
    /// before, so the numbers of one path are 0, 1, 2, and so on. Paths are
    /// taken by their components (`path_key`), so `a/b` and `a//b/` are one.
    pub fn register(&mut self, path: &str) -> (r: usize)
        requires
            registered(old(self)@, path_key(path@)) < usize::MAX,
        ensures
            r == registered(old(self)@, path_key(path@)),
            final(self)@ == after_register(old(self)@, path_key(path@)),
    {
        let key = path_key_text(path);
        self.register_key(key.as_str())
    }

    /// Registers an upcoming write under the text `path`.
    fn register_key(&mut self, path: &str) -> (r: usize)
        requires
            registered(old(self)@, path@) < usize::MAX,
        ensures
            r == registered(old(self)@, path@),
            final(self)@ == after_register(old(self)@, path@),
    {
        let ghost v = self@;
        let pc = chars_of(path);
        let mut i: usize = 0;
        while i < self.entries.len()
            invariant
                i <= self.entries.len(),
                v == self@,
                v == old(self)@,
                registered(v, path@) < usize::MAX,
                pc@ == path@,
                path_pos(v.take(i as int), path@) is None,
            decreases self.entries.len() - i,
        {
            assert(v.take(i + 1).drop_last() =~= v.take(i as int));
            let name = chars_of(self.entries[i].0.as_str());
            assert(v[i as int].0 == self.entries@[i as int].0@);
            if chars_eq(name.as_slice(), pc.as_slice()) {
                proof {
                    lemma_path_pos_prefix(v, (i + 1) as nat, path@);
                    lemma_path_pos(v, path@);
                }
                let seq = self.entries[i].1;
                assert(seq == v[i as int].1);
                let key = self.entries[i].0.clone();
                self.entries.set(i, (key, seq + 1));
                assert(self@ =~= v.update(i as int, (path@, (seq + 1) as usize)));
                return seq;
            }
            i = i + 1;
        }
        assert(v.take(self.entries.len() as int) =~= v);
        self.entries.push((String::from_str(path), 1));
        assert(self@ =~= v.push((path@, 1usize)));
        0
    }
}

/// Whether a worker holding sequence number `seq` may write now: the
/// counter of its path has reached exactly its number.
pub fn turn_arrived(current: usize, seq: usize) -> (r: bool)
    ensures
        r == (current == seq),
{
    current == seq
}

/// The counter after the worker with number `seq` is done, or `None` while
/// an earlier worker of the same path is still to finish.
pub fn advance_after(current: usize, seq: usize) -> (r: Option<usize>)
    requires
        seq < usize::MAX,
    ensures
        current < seq ==> r is None,
        current >= seq ==> r == Some((seq + 1) as usize),
{
    if current < seq {
        None
    } else {
        Some(seq + 1)
    }
}

} // verus!
