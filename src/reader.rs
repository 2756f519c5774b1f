use vstd::prelude::*;
use crate::block::{PrimitiveBlock, block_objects, block_objs, block_ok};
use crate::error::Error;
use crate::objects::{ObjV, OsmObj, objs_view};
use crate::resolve::{Resolver, is_closure, missing, pred_ok};

verus! {

/// A rewindable reader over a file's segments, each already read and
/// decoded into a block, or the error that reading it gave.
pub struct OsmPbfReader {
    pub segments: Vec<Result<PrimitiveBlock, Error>>,
    pub pos: usize,
}

pub open spec fn segment_ok(s: Result<PrimitiveBlock, Error>) -> bool {
    s matches Ok(b) && block_ok(&b)
}

pub open spec fn segment_objs(s: Result<PrimitiveBlock, Error>) -> Seq<ObjV> {
    match s {
        Ok(b) => block_objs(&b),
        Err(_) => Seq::empty(),
    }
}

/// The objects of the first `n` segments, in file order.
pub open spec fn objs_upto(segs: Seq<Result<PrimitiveBlock, Error>>, n: int) -> Seq<ObjV>
    decreases n,
{
    if n <= 0 {
        Seq::empty()
    } else {
        objs_upto(segs, n - 1) + segment_objs(segs[n - 1])
    }
}

/// The error that a segment that does not decode gives.
pub open spec fn segment_error(s: Result<PrimitiveBlock, Error>) -> Error {
    match s {
        Err(e) => e,
        Ok(_) => Error::FormatError,
    }
}

/// Segment `s` is the first that does not decode.
pub open spec fn first_bad(segs: Seq<Result<PrimitiveBlock, Error>>, s: int) -> bool {
    &&& 0 <= s < segs.len()
    &&& !segment_ok(segs[s])
    &&& forall|t: int| 0 <= t < s ==> segment_ok(#[trigger] segs[t])
}

impl OsmPbfReader {
    pub fn new(segments: Vec<Result<PrimitiveBlock, Error>>) -> (r: OsmPbfReader)
        ensures
            r.segments == segments,
            r.pos == 0,
    {
        OsmPbfReader { segments, pos: 0 }
    }

    /// Every segment was read and every block decodes.
    pub open spec fn file_ok(&self) -> bool {
        forall|s: int| 0 <= s < self.segments@.len() ==> segment_ok(#[trigger] self.segments@[s])
    }

    /// Every object of the file, in file order.
    pub open spec fn file_objs(&self) -> Seq<ObjV> {
        objs_upto(self.segments@, self.segments@.len() as int)
    }

    /// Goes back to the first segment.
    pub fn rewind(&mut self)
        ensures
            final(self).segments == old(self).segments,
            final(self).pos == 0,
    {
        self.pos = 0;
    }

    /// The objects of the next segment, or `None` at the end of the file.
    pub fn next_objects(&mut self) -> (r: Option<Result<Vec<OsmObj>, Error>>)
        ensures
            final(self).segments == old(self).segments,
            old(self).pos >= old(self).segments@.len() ==> r is None && final(self).pos == old(self).pos,
            old(self).pos < old(self).segments@.len() ==> {
                &&& final(self).pos == old(self).pos + 1
                &&& r matches Some(x) && (x is Ok <==> segment_ok(old(self).segments@[old(self).pos as int]))
                &&& (r matches Some(Ok(v)) ==> objs_view(v@) == segment_objs(old(self).segments@[old(self).pos as int]))
                &&& (r matches Some(Err(e)) ==> e == segment_error(old(self).segments@[old(self).pos as int]))
            },
    {
        if self.pos >= self.segments.len() {
            return None;
        }
        let s = self.pos;
        self.pos = self.pos + 1;
        Some(decode_segment(&self.segments[s]))
    }
}

/// Decodes one segment into its objects.
pub fn decode_segment(s: &Result<PrimitiveBlock, Error>) -> (r: Result<Vec<OsmObj>, Error>)
    ensures
        r is Ok <==> segment_ok(*s),
        r matches Ok(v) ==> objs_view(v@) == segment_objs(*s),
        r matches Err(e) ==> e == segment_error(*s),
{
    match s {
        Err(e) => Err(*e),
        Ok(b) => block_objects(b),
    }
}
impl OsmPbfReader {
    /// Rewinds and hands every segment's objects, in file order, to `r`.
    fn feed_pass<F: Fn(&OsmObj) -> bool>(&mut self, r: &mut Resolver<F>) -> (res: Result<(), Error>)
        requires
            old(r).inv(),
            old(r).seen@.len() == 0,
        ensures
            final(self).segments == old(self).segments,
            final(r).inv(),
            final(r).pred == old(r).pred,
            final(r).first == old(r).first,
            final(r).file == old(r).file,
            final(r).res0 == old(r).res0,
            final(r).consistent == old(r).consistent,
            res is Ok <==> old(self).file_ok(),
            res matches Err(e) ==> exists|s: int|
                first_bad(old(self).segments@, s) && e == segment_error(#[trigger] old(self).segments@[s]),
            res is Ok ==> final(r).seen@ == old(self).file_objs(),
    {
        let ghost segs = self.segments;
        self.rewind();
        assert(r.seen@ =~= objs_upto(segs@, 0));
        while self.pos < self.segments.len()
            invariant
                self.segments == segs,
                segs == old(self).segments,
                self.pos <= self.segments@.len(),
                r.inv(),
                r.pred == old(r).pred,
                r.first == old(r).first,
                r.file == old(r).file,
                r.res0 == old(r).res0,
                r.consistent == old(r).consistent,
                r.seen@ == objs_upto(segs@, self.pos as int),
                forall|s: int| 0 <= s < self.pos ==> segment_ok(#[trigger] self.segments@[s]),
            decreases self.segments@.len() - self.pos,
        {
            let ghost pos0 = self.pos;
            match self.next_objects().unwrap() {
                Err(e) => {
                    assert(first_bad(segs@, pos0 as int));
                    return Err(e);
                },
                Ok(objs) => {
                    r.absorb(objs);
                    assert(objs_upto(segs@, pos0 + 1) == objs_upto(segs@, pos0 as int) + segment_objs(
                        segs@[pos0 as int],
                    ));
                },
            }
        }
        Ok(())
    }

    /// The objects that `pred` selects, together with everything they
    /// refer to, directly or not, that the file holds. Passes over the file
    /// repeat until one finds nothing new; a reference to an id that no
    /// object of the file has is left out. Any segment that does not decode
    /// fails the whole query.
    pub fn get_objs_and_deps<F: Fn(&OsmObj) -> bool>(&mut self, pred: F) -> (r: Result<
        Vec<OsmObj>,
        Error,
    >)
        requires
            pred_ok(pred),
        ensures
            final(self).segments == old(self).segments,
            r is Ok <==> old(self).file_ok(),
            r matches Err(e) ==> exists|s: int|
                first_bad(old(self).segments@, s) && e == segment_error(#[trigger] old(self).segments@[s]),
            r matches Ok(v) ==> is_closure(pred, v@, old(self).file_objs()),
    {
        let ghost file = self.file_objs();
        let ghost segs = self.segments;
        let mut q = Resolver::new(pred);
        self.feed_pass(&mut q)?;
        let mut again = q.end_pass();
        while again
            invariant
                self.segments == segs,
                file == self.file_objs(),
                self.file_ok(),
                q.inv(),
                q.pred == pred,
                !q.first,
                q.file@ == file,
                q.consistent@,
                q.seen@.len() == 0,
                q.res0@ == q.res@,
                again == (q.wanted@.len() > 0),
                !again ==> is_closure(pred, q.res@, file),
            decreases missing(file, q.res@) + if again {
                1nat
            } else {
                0nat
            },
        {
            match self.feed_pass(&mut q) {
                Ok(()) => {},
                Err(e) => {
                    return Err(e);
                },
            }
            again = q.end_pass();
        }
        self.rewind();
        Ok(q.res)
    }
}

} // verus!
