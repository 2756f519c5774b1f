use vstd::prelude::*;
use crate::objects::{ObjV, OsmId, OsmObj, objs_view};
use std::collections::HashSet;

verus! {

broadcast use vstd::std_specs::hash::group_hash_axioms;

/// A set of ids, one hash set of numbers per kind.
pub struct IdSet {
    pub nodes: HashSet<i64>,
    pub ways: HashSet<i64>,
    pub relations: HashSet<i64>,
}

impl View for IdSet {
    type V = Set<OsmId>;

    open spec fn view(&self) -> Set<OsmId> {
        Set::new(
            |x: OsmId|
                match x {
                    OsmId::Node(n) => self.nodes@.contains(n),
                    OsmId::Way(n) => self.ways@.contains(n),
                    OsmId::Relation(n) => self.relations@.contains(n),
                },
        )
    }
}

impl IdSet {
    pub fn new() -> (r: IdSet)
        ensures
            r@ == Set::<OsmId>::empty(),
    {
        let r = IdSet { nodes: HashSet::new(), ways: HashSet::new(), relations: HashSet::new() };
        assert(r@ =~= Set::<OsmId>::empty());
        r
    }

    pub fn contains(&self, x: OsmId) -> (r: bool)
        ensures
            r == self@.contains(x),
    {
        match x {
            OsmId::Node(n) => self.nodes.contains(&n),
            OsmId::Way(n) => self.ways.contains(&n),
            OsmId::Relation(n) => self.relations.contains(&n),
        }
    }

    pub fn insert(&mut self, x: OsmId)
        ensures
            final(self)@ == old(self)@.insert(x),
    {
        match x {
            OsmId::Node(n) => {
                self.nodes.insert(n);
            },
            OsmId::Way(n) => {
                self.ways.insert(n);
            },
            OsmId::Relation(n) => {
                self.relations.insert(n);
            },
        }
        assert(self@ =~= old(self)@.insert(x));
    }
}

/// Some object of `res` has the id `x`.
pub open spec fn has_id(res: Seq<OsmObj>, x: OsmId) -> bool {
    exists|i: int| 0 <= i < res.len() && (#[trigger] res[i])@.id() == x
}

/// No two objects of `res` share an id.
pub open spec fn ids_distinct(res: Seq<OsmObj>) -> bool {
    forall|i: int, j: int|
        0 <= i < j < res.len() ==> (#[trigger] res[i])@.id() != (#[trigger] res[j])@.id()
}

/// Some object of `objs` has the id `x`.
pub open spec fn id_in(objs: Seq<ObjV>, x: OsmId) -> bool {
    exists|k: int| 0 <= k < objs.len() && (#[trigger] objs[k]).id() == x
}

/// Some object of `res` refers to `x`.
pub open spec fn referenced(res: Seq<OsmObj>, x: OsmId) -> bool {
    exists|i: int| 0 <= i < res.len() && (#[trigger] res[i])@.refs().contains(x)
}

/// The predicate holds of an object with this view.
pub open spec fn selected<F: Fn(&OsmObj) -> bool>(pred: F, v: ObjV) -> bool {
    exists|o: OsmObj| o@ == v && #[trigger] pred.ensures((&o,), true)
}

/// The predicate turned down an object with this view.
pub open spec fn rejected<F: Fn(&OsmObj) -> bool>(pred: F, v: ObjV) -> bool {
    exists|o: OsmObj| o@ == v && #[trigger] pred.ensures((&o,), false)
}

/// The predicate can be called on any object.
pub open spec fn pred_ok<F: Fn(&OsmObj) -> bool>(pred: F) -> bool {
    forall|o: &OsmObj| #[trigger] pred.requires((o,))
}

/// Every reference of an object of `res` names an object of `res`, one of
/// `w`, or no object of `file`.
pub open spec fn closed_but(res: Seq<OsmObj>, w: Seq<OsmId>, file: Seq<ObjV>) -> bool {
    forall|i: int, x: OsmId|
        0 <= i < res.len() && #[trigger] res[i]@.refs().contains(x) ==> has_id(res, x)
            || w.contains(x) || !id_in(file, x)
}

/// Every object of `res` is selected, or referred to by one that stands
/// before it in `res`.
pub open spec fn supported<F: Fn(&OsmObj) -> bool>(pred: F, res: Seq<OsmObj>) -> bool {
    forall|i: int|
        0 <= i < res.len() ==> selected(pred, (#[trigger] res[i])@) || referenced(
            res.subrange(0, i),
            res[i]@.id(),
        )
}

/// How many objects of `file` have an id that `res` lacks.
pub open spec fn missing(file: Seq<ObjV>, res: Seq<OsmObj>) -> nat
    decreases file.len(),
{
    if file.len() == 0 {
        0
    } else {
        missing(file.drop_last(), res) + if has_id(res, file.last().id()) {
            0nat
        } else {
            1nat
        }
    }
}

pub proof fn lemma_missing_shrinks(file: Seq<ObjV>, a: Seq<OsmObj>, b: Seq<OsmObj>)
    requires
        forall|x: OsmId| has_id(a, x) ==> has_id(b, x),
    ensures
        missing(file, b) <= missing(file, a),
        (exists|k: int|
            0 <= k < file.len() && has_id(b, (#[trigger] file[k]).id()) && !has_id(a, file[k].id()))
            ==> missing(file, b) < missing(file, a),
    decreases file.len(),
{
    if file.len() > 0 {
        lemma_missing_shrinks(file.drop_last(), a, b);
        if exists|k: int|
            0 <= k < file.len() && has_id(b, (#[trigger] file[k]).id()) && !has_id(a, file[k].id()) {
            let k = choose|k: int|
                0 <= k < file.len() && has_id(b, (#[trigger] file[k]).id()) && !has_id(a, file[k].id());
            if k < file.len() - 1 {
                assert(file.drop_last()[k] == file[k]);
            }
        }
    }
}

proof fn lemma_push_keeps(res: Seq<OsmObj>, o: OsmObj)
    ensures
        forall|x: OsmId| has_id(res, x) ==> has_id(res.push(o), x),
        forall|x: OsmId| referenced(res, x) ==> referenced(res.push(o), x),
        has_id(res.push(o), o@.id()),
        forall|x: OsmId| o@.refs().contains(x) ==> referenced(res.push(o), x),
        forall|x: OsmId| has_id(res.push(o), x) ==> has_id(res, x) || x == o@.id(),
{
    let r2 = res.push(o);
    assert(r2[res.len() as int] == o);
    assert forall|x: OsmId| has_id(res, x) implies has_id(r2, x) by {
        let i = choose|i: int| 0 <= i < res.len() && (#[trigger] res[i])@.id() == x;
        assert(r2[i] == res[i]);
    }
    assert forall|x: OsmId| referenced(res, x) implies referenced(r2, x) by {
        let i = choose|i: int| 0 <= i < res.len() && (#[trigger] res[i])@.refs().contains(x);
        assert(r2[i] == res[i]);
    }
    assert forall|x: OsmId| has_id(r2, x) implies has_id(res, x) || x == o@.id() by {
        let i = choose|i: int| 0 <= i < r2.len() && (#[trigger] r2[i])@.id() == x;
        if i < res.len() {
            assert(r2[i] == res[i]);
        }
    }
}

proof fn lemma_push_contains(s: Seq<OsmId>, y: OsmId)
    ensures
        forall|x: OsmId| #[trigger] s.push(y).contains(x) <==> s.contains(x) || x == y,
{
    assert forall|x: OsmId| s.contains(x) implies #[trigger] s.push(y).contains(x) by {
        let k = choose|k: int| 0 <= k < s.len() && s[k] == x;
        assert(s.push(y)[k] == x);
    }
    assert(s.push(y)[s.len() as int] == y);
}

proof fn lemma_prefix_contains(a: Seq<OsmId>, b: Seq<OsmId>)
    requires
        b.len() >= a.len(),
        b.subrange(0, a.len() as int) == a,
    ensures
        forall|x: OsmId| a.contains(x) ==> #[trigger] b.contains(x),
{
    assert forall|x: OsmId| a.contains(x) implies #[trigger] b.contains(x) by {
        let k = choose|k: int| 0 <= k < a.len() && a[k] == x;
        assert(b.subrange(0, a.len() as int)[k] == b[k]);
    }
}

fn reversed(v: Vec<OsmObj>) -> (r: Vec<OsmObj>)
    ensures
        r@.len() == v@.len(),
        forall|i: int| 0 <= i < v@.len() ==> #[trigger] r@[i] == v@[v@.len() - 1 - i],
{
    let ghost orig = v@;
    let mut v = v;
    let mut r: Vec<OsmObj> = Vec::new();
    while v.len() > 0
        invariant
            v@ == orig.subrange(0, v@.len() as int),
            r@.len() + v@.len() == orig.len(),
            forall|i: int| 0 <= i < r@.len() ==> #[trigger] r@[i] == orig[orig.len() - 1 - i],
        decreases v@.len(),
    {
        match v.pop() {
            Some(o) => {
                r.push(o);
            },
            None => {},
        }
    }
    r
}

/// What the dependency closure of `pred` over `file` is: distinct ids,
/// objects of the file, every object of the file that the predicate did not
/// turn down, every reference that the file can satisfy, and nothing that is
/// neither selected nor referred to.
pub open spec fn is_closure<F: Fn(&OsmObj) -> bool>(pred: F, res: Seq<OsmObj>, file: Seq<ObjV>) -> bool {
    &&& ids_distinct(res)
    &&& forall|i: int| 0 <= i < res.len() ==> file.contains(#[trigger] res[i]@)
    &&& forall|k: int|
        0 <= k < file.len() ==> has_id(res, (#[trigger] file[k]).id()) || rejected(pred, file[k])
    &&& closed_but(res, Seq::empty(), file)
    &&& supported(pred, res)
}

/// The decisions of a dependency-closure query, one segment at a time.
/// The caller rewinds the file and hands over each segment's objects in file
/// order with `absorb`, then calls `end_pass`; while that answers `true`, it
/// makes another pass. The first pass takes what the predicate selects; a
/// later one takes the ids that the previous pass found referenced and not
/// yet held.
pub struct Resolver<F> {
    pub pred: F,
    /// The objects taken so far.
    pub res: Vec<OsmObj>,
    /// The ids this pass looks for.
    pub wanted: Vec<OsmId>,
    /// The ids the next pass will look for.
    pub next: Vec<OsmId>,
    pub first: bool,
    /// The objects of the file, as the first pass saw them.
    pub file: Ghost<Seq<ObjV>>,
    /// The objects this pass has seen so far.
    pub seen: Ghost<Seq<ObjV>>,
    /// `res` when this pass began.
    pub res0: Ghost<Seq<OsmObj>>,
    /// Every finished later pass saw exactly the objects of the first.
    pub consistent: Ghost<bool>,
    /// The ids of `res`, `wanted` and `next`, for lookups.
    pub held: IdSet,
    pub wanted_set: IdSet,
    pub next_set: IdSet,
}

impl<F: Fn(&OsmObj) -> bool> Resolver<F> {
    pub open spec fn inv(&self) -> bool {
        let res = self.res@;
        let res0 = self.res0@;
        let seen = self.seen@;
        let file = self.file@;
        &&& pred_ok(self.pred)
        &&& forall|x: OsmId| self.held@.contains(x) == has_id(res, x)
        &&& forall|x: OsmId| self.wanted_set@.contains(x) == self.wanted@.contains(x)
        &&& forall|x: OsmId| self.next_set@.contains(x) == self.next@.contains(x)
        &&& self.first ==> self.wanted@.len() == 0 && res0.len() == 0
        &&& res.len() >= res0.len()
        &&& res.subrange(0, res0.len() as int) == res0
        &&& self.consistent@ ==> forall|i: int| 0 <= i < res0.len() ==> file.contains(#[trigger] res0[i]@)
        &&& forall|i: int| res0.len() <= i < res.len() ==> seen.contains(#[trigger] res[i]@)
        &&& ids_distinct(res)
        &&& self.consistent@ ==> forall|i: int, x: OsmId|
            0 <= i < res.len() && #[trigger] res[i]@.refs().contains(x) ==> has_id(res, x)
                || self.wanted@.contains(x) || self.next@.contains(x) || (!self.first && !id_in(file, x))
        &&& supported(self.pred, res)
        &&& forall|x: OsmId| self.wanted@.contains(x) ==> referenced(res, x)
        &&& forall|x: OsmId| self.next@.contains(x) ==> referenced(res, x)
        &&& forall|k: int|
            0 <= k < seen.len() && self.wanted@.contains((#[trigger] seen[k]).id()) ==> has_id(res, seen[k].id())
        &&& self.first ==> forall|k: int|
            0 <= k < seen.len() ==> has_id(res, (#[trigger] seen[k]).id()) || rejected(self.pred, seen[k])
        &&& !self.first && self.consistent@ ==> forall|k: int|
            0 <= k < file.len() ==> has_id(res, (#[trigger] file[k]).id()) || rejected(self.pred, file[k])
        &&& self.next@.len() > 0 ==> exists|k: int|
            0 <= k < seen.len() && has_id(res, (#[trigger] seen[k]).id()) && !has_id(res0, seen[k].id())
    }

    /// A query that has seen nothing yet.
    pub fn new(pred: F) -> (r: Resolver<F>)
        requires
            pred_ok(pred),
        ensures
            r.inv(),
            r.pred == pred,
            r.first,
            r.res@.len() == 0,
            r.seen@.len() == 0,
            r.consistent@,
    {
        let r = Resolver {
            pred,
            res: Vec::new(),
            wanted: Vec::new(),
            next: Vec::new(),
            first: true,
            file: Ghost(Seq::empty()),
            seen: Ghost(Seq::empty()),
            res0: Ghost(Seq::empty()),
            consistent: Ghost(true),
            held: IdSet::new(),
            wanted_set: IdSet::new(),
            next_set: IdSet::new(),
        };
        assert(r.res@.subrange(0, 0) =~= r.res0@);
        r
    }

    /// Takes in the objects of the next segment of this pass.
    pub fn absorb(&mut self, objs: Vec<OsmObj>)
        requires
            old(self).inv(),
        ensures
            final(self).inv(),
            final(self).seen@ == old(self).seen@ + objs_view(objs@),
            final(self).pred == old(self).pred,
            final(self).first == old(self).first,
            final(self).file == old(self).file,
            final(self).res0 == old(self).res0,
            final(self).consistent == old(self).consistent,
            final(self).wanted == old(self).wanted,
    {
        let ghost orig = objs@;
        let ghost seen0 = self.seen@;
        let ghost res0 = self.res0@;
        let ghost file = self.file@;
        let ghost first = self.first;
        let ghost consistent = self.consistent@;
        let mut rev = reversed(objs);
        let ghost pred0 = self.pred;
        let ghost wanted0 = self.wanted;
        let ghost wanted_set0 = self.wanted_set;
        while rev.len() > 0
            invariant
                self.pred == pred0,
                self.wanted == wanted0,
                self.wanted_set == wanted_set0,
                forall|x: OsmId| self.held@.contains(x) == has_id(self.res@, x),
                forall|x: OsmId| self.wanted_set@.contains(x) == self.wanted@.contains(x),
                forall|x: OsmId| self.next_set@.contains(x) == self.next@.contains(x),
                pred_ok(self.pred),
                self.first == first,
                self.file@ == file,
                self.res0@ == res0,
                self.consistent@ == consistent,
                first ==> self.wanted@.len() == 0 && res0.len() == 0,
                rev@.len() <= orig.len(),
                forall|i: int| 0 <= i < rev@.len() ==> #[trigger] rev@[i] == orig[orig.len() - 1 - i],
                self.seen@ == seen0 + objs_view(orig).subrange(0, orig.len() - rev@.len()),
                self.res@.len() >= res0.len(),
                self.res@.subrange(0, res0.len() as int) == res0,
                consistent ==> forall|i: int| 0 <= i < res0.len() ==> file.contains(#[trigger] res0[i]@),
                forall|i: int| res0.len() <= i < self.res@.len() ==> self.seen@.contains(#[trigger] self.res@[i]@),
                ids_distinct(self.res@),
                consistent ==> forall|i: int, x: OsmId|
                    0 <= i < self.res@.len() && #[trigger] self.res@[i]@.refs().contains(x) ==> has_id(self.res@, x)
                        || self.wanted@.contains(x) || self.next@.contains(x) || (!first && !id_in(file, x)),
                supported(self.pred, self.res@),
                forall|x: OsmId| self.wanted@.contains(x) ==> referenced(self.res@, x),
                forall|x: OsmId| self.next@.contains(x) ==> referenced(self.res@, x),
                forall|k: int|
                    0 <= k < self.seen@.len() && self.wanted@.contains((#[trigger] self.seen@[k]).id()) ==> has_id(self.res@, self.seen@[k].id()),
                first ==> forall|k: int|
                    0 <= k < self.seen@.len() ==> has_id(self.res@, (#[trigger] self.seen@[k]).id()) || rejected(self.pred, self.seen@[k]),
                !first && consistent ==> forall|k: int|
                    0 <= k < file.len() ==> has_id(self.res@, (#[trigger] file[k]).id()) || rejected(self.pred, file[k]),
                self.next@.len() > 0 ==> exists|k: int|
                    0 <= k < self.seen@.len() && has_id(self.res@, (#[trigger] self.seen@[k]).id()) && !has_id(res0, self.seen@[k].id()),
            decreases rev@.len(),
        {
            let ghost j = orig.len() - rev@.len();
            let o = rev.pop().unwrap();
            assert(o == orig[j]);
            let ghost ov = o@;
            let ghost res_prev = self.res@;
            let ghost next_prev = self.next@;
            let ghost seen_cur = self.seen@;
            let ghost held_prev = self.held;
            let id = o.id();
            let take = if self.first {
                assert(self.pred.requires((&o,)));
                let b = (self.pred)(&o);
                assert(self.pred.ensures((&o,), b));
                b
            } else {
                self.wanted_set.contains(id)
            };
            assert(first ==> (take || rejected(self.pred, ov)));
            assert(first ==> (take ==> self.pred.ensures((&o,), true)));
            assert(!first ==> (take == self.wanted@.contains(id)));
            let found = self.held.contains(id);
            let inserted = take && !found;
            if inserted {
                let refs = o.refs();
                let mut t: usize = 0;
                while t < refs.len()
                    invariant
                        self.seen@ == seen_cur,
                        self.pred == pred0,
                        self.wanted == wanted0,
                        self.wanted_set == wanted_set0,
                        self.held == held_prev,
                        forall|x: OsmId| self.held@.contains(x) == has_id(self.res@, x),
                        forall|x: OsmId| self.next_set@.contains(x) == self.next@.contains(x),
                        self.first == first,
                        self.file@ == file,
                        self.res0@ == res0,
                        self.consistent@ == consistent,
                        t <= refs@.len(),
                        refs@ == ov.refs(),
                        self.res@ == res_prev,
                        self.next@.len() >= next_prev.len(),
                        self.next@.subrange(0, next_prev.len() as int) == next_prev,
                        forall|x: OsmId| #[trigger] self.next@.contains(x) ==> next_prev.contains(x) || ov.refs().contains(x),
                        forall|k: int| 0 <= k < t ==> has_id(self.res@, #[trigger] refs@[k]) || self.next@.contains(refs@[k]),
                    decreases refs@.len() - t,
                {
                    if !self.held.contains(refs[t]) {
                        let ghost before = self.next@;
                        self.next.push(refs[t]);
                        self.next_set.insert(refs[t]);
                        proof {
                            lemma_push_contains(before, refs@[t as int]);
                            assert(ov.refs().contains(refs@[t as int]));
                        }
                    }
                    t = t + 1;
                }
                proof {
                    lemma_prefix_contains(next_prev, self.next@);
                    assert forall|x: OsmId| ov.refs().contains(x) implies has_id(res_prev, x) || self.next@.contains(x) by {
                        let k = choose|k: int| 0 <= k < ov.refs().len() && ov.refs()[k] == x;
                        assert(refs@[k] == x);
                    }
                }
                self.res.push(o);
                self.held.insert(id);
                proof {
                    lemma_push_keeps(res_prev, o);
                    assert(self.res@ == res_prev.push(o));
                    assert(self.res@[res_prev.len() as int]@ == ov);
                }
            }
            proof {
                let seen_old = self.seen@;
                self.seen@ = self.seen@.push(orig[j]@);
                let seen = self.seen@;
                let res = self.res@;
                assert(objs_view(orig)[j] == ov);
                assert(seen[seen_old.len() as int] == ov);
                assert(seen0 + objs_view(orig).subrange(0, j + 1) =~= seen);
                assert(forall|k: int| 0 <= k < seen_old.len() ==> seen[k] == seen_old[k]);
                assert forall|x: OsmId| has_id(res_prev, x) implies has_id(res, x) by {}
                assert forall|x: OsmId| referenced(res_prev, x) implies referenced(res, x) by {}
                assert(has_id(res, ov.id()) == (found || inserted));
                assert forall|i: int| res0.len() <= i < res.len() implies seen.contains(#[trigger] res[i]@) by {
                    if i < res_prev.len() {
                        assert(res[i] == res_prev[i]);
                        let k = choose|k: int| 0 <= k < seen_old.len() && seen_old[k] == res_prev[i]@;
                        assert(seen[k] == seen_old[k]);
                    } else {
                        assert(seen[seen_old.len() as int] == res[i]@);
                    }
                }
                assert forall|i: int| 0 <= i < res0.len() implies res[i] == res0[i] by {
                    assert(res_prev.subrange(0, res0.len() as int)[i] == res0[i]);
                    if inserted {
                        assert(res[i] == res_prev[i]);
                    }
                }
                assert(res.subrange(0, res0.len() as int) =~= res0);
                if self.next@.len() > 0 {
                    if inserted {
                        assert(!has_id(res0, ov.id()));
                        assert(has_id(res, (seen[seen_old.len() as int]).id()));
                    } else {
                        let k = choose|k: int|
                            0 <= k < seen_old.len() && has_id(res_prev, (#[trigger] seen_old[k]).id()) && !has_id(res0, seen_old[k].id());
                        assert(seen[k] == seen_old[k]);
                    }
                }
                assert forall|k: int|
                    0 <= k < seen.len() && self.wanted@.contains((#[trigger] seen[k]).id()) implies has_id(res, seen[k].id()) by {
                    if k < seen_old.len() {
                        assert(seen[k] == seen_old[k]);
                    }
                }
                if first {
                    assert forall|k: int|
                        0 <= k < seen.len() implies has_id(res, (#[trigger] seen[k]).id()) || rejected(self.pred, seen[k]) by {
                        if k < seen_old.len() {
                            assert(seen[k] == seen_old[k]);
                        }
                    }
                }
                assert forall|i: int| 0 <= i < res.len() implies selected(self.pred, (#[trigger] res[i])@) || referenced(res.subrange(0, i), res[i]@.id()) by {
                    if i < res_prev.len() {
                        assert(res[i] == res_prev[i]);
                        assert(res.subrange(0, i) =~= res_prev.subrange(0, i));
                    } else if first {
                        assert(self.pred.ensures((&o,), true));
                    } else {
                        assert(self.wanted@.contains(ov.id()));
                        assert(res.subrange(0, i) =~= res_prev);
                    }
                }
            }
        }
        proof {
            assert(objs_view(orig).subrange(0, orig.len() as int) =~= objs_view(orig));
        }
    }

    /// Ends a pass. The answer says whether another pass is needed; once it
    /// is `false`, `res` is the closure of the predicate over the file,
    /// provided every pass saw the same objects.
    pub fn end_pass(&mut self) -> (again: bool)
        requires
            old(self).inv(),
        ensures
            final(self).inv(),
            final(self).pred == old(self).pred,
            !final(self).first,
            final(self).res == old(self).res,
            final(self).res0@ == old(self).res@,
            final(self).seen@.len() == 0,
            final(self).file@ == if old(self).first { old(self).seen@ } else { old(self).file@ },
            final(self).consistent@ == (old(self).consistent@ && (old(self).first || old(self).seen@ == old(self).file@)),
            again == (final(self).wanted@.len() > 0),
            !again && final(self).consistent@ ==> is_closure(final(self).pred, final(self).res@, final(self).file@),
            !old(self).first && final(self).consistent@ ==> missing(final(self).file@, final(self).res@) <= missing(final(self).file@, old(self).res0@),
            !old(self).first && final(self).consistent@ && again ==> missing(final(self).file@, final(self).res@) < missing(final(self).file@, old(self).res0@),
    {
        let ghost res = self.res@;
        let ghost res0 = self.res0@;
        let ghost seen = self.seen@;
        let ghost was_first = self.first;
        let ghost c = self.consistent@ && (self.first || self.seen@ == self.file@);
        proof {
            if was_first {
                self.file@ = seen;
            }
            let file = self.file@;
            if c {
                assert forall|i: int, x: OsmId|
                    0 <= i < res.len() && #[trigger] res[i]@.refs().contains(x) implies has_id(res, x)
                        || self.next@.contains(x) || !id_in(file, x) by {
                    if self.wanted@.contains(x) && !has_id(res, x) && id_in(file, x) {
                        let k = choose|k: int| 0 <= k < file.len() && (#[trigger] file[k]).id() == x;
                        assert(seen[k].id() == x);
                    }
                }
                assert forall|i: int| 0 <= i < res.len() implies file.contains(#[trigger] res[i]@) by {
                    if i < res0.len() {
                        assert(res.subrange(0, res0.len() as int)[i] == res[i]);
                    }
                }
                if !was_first {
                    assert forall|x: OsmId| has_id(res0, x) implies has_id(res, x) by {
                        let i = choose|i: int| 0 <= i < res0.len() && (#[trigger] res0[i])@.id() == x;
                        assert(res.subrange(0, res0.len() as int)[i] == res[i]);
                    }
                    lemma_missing_shrinks(file, res0, res);
                }
            }
            self.consistent@ = c;
            self.res0@ = res;
            self.seen@ = Seq::empty();
        }
        self.first = false;
        let mut taken: Vec<OsmId> = Vec::new();
        std::mem::swap(&mut self.next, &mut taken);
        self.wanted = taken;
        let mut taken_set = IdSet::new();
        std::mem::swap(&mut self.next_set, &mut taken_set);
        self.wanted_set = taken_set;
        proof {
            assert(self.res@.subrange(0, self.res@.len() as int) =~= self.res@);
            if c && self.wanted@.len() == 0 {
                assert forall|i: int, x: OsmId|
                    0 <= i < res.len() && #[trigger] res[i]@.refs().contains(x) implies has_id(res, x)
                        || Seq::<OsmId>::empty().contains(x) || !id_in(self.file@, x) by {}
            }
        }
        self.wanted.len() > 0
    }
}

} // verus!
