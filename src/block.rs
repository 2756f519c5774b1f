use vstd::prelude::*;
use crate::delta::{deltas_fit, delta_decode, delta_decoded, fits_i64, scale, scaled};
use crate::error::Error;
use crate::objects::{
    Node, NodeV, ObjV, OsmId, OsmObj, Relation, RelationV, Tags, TagsV, Way, WayV, lemma_objs_view_push, objs_view, tags_view,
};

verus! {

/// Coordinate granularity, in nanodegrees, used where a block sets none.
pub const DEFAULT_GRANULARITY: i32 = 100;

/// A point in its individual form: coordinates are raw, not delta-coded.
pub struct RawNode {
    pub id: i64,
    pub keys: Vec<u32>,
    pub vals: Vec<u32>,
    pub lat: i64,
    pub lon: i64,
}

/// Many points as parallel delta-coded sequences; `keys_vals` holds
/// (key, value) string indices per point, each point's run ended by `0`.
pub struct DenseNodes {
    pub id: Vec<i64>,
    pub lat: Vec<i64>,
    pub lon: Vec<i64>,
    pub keys_vals: Vec<i32>,
}

pub struct RawWay {
    pub id: i64,
    pub keys: Vec<u32>,
    pub vals: Vec<u32>,
    /// Delta-coded node ids.
    pub refs: Vec<i64>,
}

pub struct RawRelation {
    pub id: i64,
    pub keys: Vec<u32>,
    pub vals: Vec<u32>,
    pub roles_sid: Vec<i32>,
    /// Delta-coded member ids.
    pub memids: Vec<i64>,
    /// Member kinds: 0 node, 1 way, 2 relation.
    pub types: Vec<i32>,
}

pub enum PrimitiveGroup {
    Nodes(Vec<RawNode>),
    Dense(DenseNodes),
    Ways(Vec<RawWay>),
    Relations(Vec<RawRelation>),
}

/// A decoded block: its string table, its groups, and the scaling fields.
pub struct PrimitiveBlock {
    pub stringtable: Vec<Vec<u8>>,
    pub groups: Vec<PrimitiveGroup>,
    pub granularity: i32,
    pub lat_offset: i64,
    pub lon_offset: i64,
}

impl PrimitiveBlock {
    /// A block with the format's default granularity and offsets.
    pub fn new(stringtable: Vec<Vec<u8>>, groups: Vec<PrimitiveGroup>) -> (r: PrimitiveBlock)
        ensures
            r.stringtable == stringtable,
            r.groups == groups,
            r.granularity == DEFAULT_GRANULARITY,
            r.lat_offset == 0,
            r.lon_offset == 0,
    {
        PrimitiveBlock {
            stringtable,
            groups,
            granularity: DEFAULT_GRANULARITY,
            lat_offset: 0,
            lon_offset: 0,
        }
    }

    pub open spec fn strings(&self) -> Seq<Seq<u8>> {
        self.stringtable@.map_values(|s: Vec<u8>| s@)
    }
}

// ---------------------------------------------------------------- tags

pub open spec fn tags_ok(st: Seq<Seq<u8>>, keys: Seq<u32>, vals: Seq<u32>) -> bool {
    &&& keys.len() == vals.len()
    &&& forall|i: int| 0 <= i < keys.len() ==> (#[trigger] keys[i]) < st.len()
    &&& forall|i: int| 0 <= i < vals.len() ==> (#[trigger] vals[i]) < st.len()
}

pub open spec fn tags_of(st: Seq<Seq<u8>>, keys: Seq<u32>, vals: Seq<u32>) -> TagsV {
    Seq::new(keys.len(), |i: int| (st[keys[i] as int], st[vals[i] as int]))
}

pub fn copy_bytes(s: &Vec<u8>) -> (r: Vec<u8>)
    ensures
        r@ == s@,
{
    let mut out: Vec<u8> = Vec::new();
    let mut i: usize = 0;
    while i < s.len()
        invariant
            i <= s@.len(),
            out@ == s@.subrange(0, i as int),
        decreases s@.len() - i,
    {
        out.push(s[i]);
        i = i + 1;
        assert(out@ =~= s@.subrange(0, i as int));
    }
    assert(s@.subrange(0, i as int) =~= s@);
    out
}

/// Resolves parallel key/value index arrays through the string table.
pub fn decode_tags(block: &PrimitiveBlock, keys: &Vec<u32>, vals: &Vec<u32>) -> (r: Result<
    Tags,
    Error,
>)
    ensures
        r is Ok <==> tags_ok(block.strings(), keys@, vals@),
        r is Err ==> r == Err::<Tags, Error>(Error::FormatError),
        r matches Ok(t) ==> tags_view(t@) == tags_of(block.strings(), keys@, vals@),
{
    let ghost st = block.strings();
    if keys.len() != vals.len() {
        return Err(Error::FormatError);
    }
    let mut out: Tags = Vec::new();
    let mut i: usize = 0;
    while i < keys.len()
        invariant
            i <= keys@.len(),
            keys@.len() == vals@.len(),
            st == block.strings(),
            forall|k: int| 0 <= k < i ==> (#[trigger] keys@[k]) < st.len(),
            forall|k: int| 0 <= k < i ==> (#[trigger] vals@[k]) < st.len(),
            tags_view(out@) == tags_of(st, keys@, vals@).subrange(0, i as int),
        decreases keys@.len() - i,
    {
        let k = keys[i] as usize;
        let v = vals[i] as usize;
        if k >= block.stringtable.len() || v >= block.stringtable.len() {
            return Err(Error::FormatError);
        }
        let pair = (copy_bytes(&block.stringtable[k]), copy_bytes(&block.stringtable[v]));
        let ghost old_out = out@;
        out.push(pair);
        proof {
            assert(pair.0@ == st[keys@[i as int] as int]);
            assert(pair.1@ == st[vals@[i as int] as int]);
            assert(out@ == old_out.push(pair));
            assert(tags_view(out@) =~= tags_view(old_out).push((pair.0@, pair.1@)));
        }
        i = i + 1;
        assert(tags_view(out@) =~= tags_of(st, keys@, vals@).subrange(0, i as int));
    }
    assert(tags_of(st, keys@, vals@).subrange(0, i as int) =~= tags_of(st, keys@, vals@));
    Ok(out)
}
// ---------------------------------------------------------------- points, ways, relations

pub open spec fn raw_node_ok(b: &PrimitiveBlock, n: &RawNode) -> bool {
    &&& tags_ok(b.strings(), n.keys@, n.vals@)
    &&& fits_i64(scaled(b.lat_offset, b.granularity, n.lat as int))
    &&& fits_i64(scaled(b.lon_offset, b.granularity, n.lon as int))
}

pub open spec fn raw_node_view(b: &PrimitiveBlock, n: &RawNode) -> NodeV {
    NodeV {
        id: n.id,
        lat: scaled(b.lat_offset, b.granularity, n.lat as int) as i64,
        lon: scaled(b.lon_offset, b.granularity, n.lon as int) as i64,
        tags: tags_of(b.strings(), n.keys@, n.vals@),
    }
}

/// Decodes a point given in its individual form.
pub fn simple_node(b: &PrimitiveBlock, n: &RawNode) -> (r: Result<Node, Error>)
    ensures
        r is Ok <==> raw_node_ok(b, n),
        r is Err ==> r == Err::<Node, Error>(Error::FormatError),
        r matches Ok(v) ==> v@ == raw_node_view(b, n),
{
    let tags = decode_tags(b, &n.keys, &n.vals)?;
    let lat = scale(b.lat_offset, b.granularity, n.lat)?;
    let lon = scale(b.lon_offset, b.granularity, n.lon)?;
    Ok(Node { id: n.id, lat_nano: lat, lon_nano: lon, tags })
}

pub open spec fn way_ok(b: &PrimitiveBlock, w: &RawWay) -> bool {
    tags_ok(b.strings(), w.keys@, w.vals@) && deltas_fit(w.refs@)
}

pub open spec fn way_view(b: &PrimitiveBlock, w: &RawWay) -> WayV {
    WayV {
        id: w.id,
        nodes: delta_decoded(w.refs@).map_values(|v: int| v as i64),
        tags: tags_of(b.strings(), w.keys@, w.vals@),
    }
}

/// Decodes a way; its node references are delta-coded.
pub fn way(b: &PrimitiveBlock, w: &RawWay) -> (r: Result<Way, Error>)
    ensures
        r is Ok <==> way_ok(b, w),
        r is Err ==> r == Err::<Way, Error>(Error::FormatError),
        r matches Ok(v) ==> v@ == way_view(b, w),
{
    let tags = decode_tags(b, &w.keys, &w.vals)?;
    let nodes = delta_decode(&w.refs)?;
    let res = Way { id: w.id, nodes, tags };
    assert(res@.nodes =~= way_view(b, w).nodes);
    Ok(res)
}

pub open spec fn member_kind_ok(t: i32) -> bool {
    0 <= t <= 2
}

pub open spec fn member_id(t: i32, id: i64) -> OsmId {
    if t == 0 {
        OsmId::Node(id)
    } else if t == 1 {
        OsmId::Way(id)
    } else {
        OsmId::Relation(id)
    }
}

pub open spec fn relation_ok(b: &PrimitiveBlock, r: &RawRelation) -> bool {
    &&& tags_ok(b.strings(), r.keys@, r.vals@)
    &&& r.roles_sid@.len() == r.memids@.len()
    &&& r.types@.len() == r.memids@.len()
    &&& deltas_fit(r.memids@)
    &&& forall|i: int| 0 <= i < r.types@.len() ==> member_kind_ok(#[trigger] r.types@[i])
    &&& forall|i: int|
        0 <= i < r.roles_sid@.len() ==> 0 <= #[trigger] r.roles_sid@[i] < b.strings().len()
}

pub open spec fn relation_view(b: &PrimitiveBlock, r: &RawRelation) -> RelationV {
    RelationV {
        id: r.id,
        refs: Seq::new(
            r.memids@.len(),
            |i: int|
                (
                    member_id(r.types@[i], delta_decoded(r.memids@)[i] as i64),
                    b.strings()[r.roles_sid@[i] as int],
                ),
        ),
        tags: tags_of(b.strings(), r.keys@, r.vals@),
    }
}

fn member_of(t: i32, id: i64) -> (r: Result<OsmId, Error>)
    ensures
        r is Ok <==> member_kind_ok(t),
        r is Err ==> r == Err::<OsmId, Error>(Error::FormatError),
        r matches Ok(m) ==> m == member_id(t, id),
{
    if t == 0 {
        Ok(OsmId::Node(id))
    } else if t == 1 {
        Ok(OsmId::Way(id))
    } else if t == 2 {
        Ok(OsmId::Relation(id))
    } else {
        Err(Error::FormatError)
    }
}

/// Decodes a relation; member ids are delta-coded, roles are string indices.
pub fn relation(b: &PrimitiveBlock, r: &RawRelation) -> (res: Result<Relation, Error>)
    ensures
        res is Ok <==> relation_ok(b, r),
        res is Err ==> res == Err::<Relation, Error>(Error::FormatError),
        res matches Ok(v) ==> v@ == relation_view(b, r),
{
    let ghost st = b.strings();
    let tags = decode_tags(b, &r.keys, &r.vals)?;
    if r.roles_sid.len() != r.memids.len() || r.types.len() != r.memids.len() {
        return Err(Error::FormatError);
    }
    let ids = delta_decode(&r.memids)?;
    let ghost target = relation_view(b, r).refs;
    let mut refs: Vec<(OsmId, Vec<u8>)> = Vec::new();
    let mut i: usize = 0;
    while i < ids.len()
        invariant
            i <= ids@.len(),
            ids@.len() == r.memids@.len(),
            r.roles_sid@.len() == r.memids@.len(),
            r.types@.len() == r.memids@.len(),
            st == b.strings(),
            target == relation_view(b, r).refs,
            forall|k: int| 0 <= k < ids@.len() ==> ids@[k] as int == #[trigger] delta_decoded(r.memids@)[k],
            forall|k: int| 0 <= k < i ==> member_kind_ok(#[trigger] r.types@[k]),
            forall|k: int| 0 <= k < i ==> 0 <= #[trigger] r.roles_sid@[k] < st.len(),
            refs@.map_values(|m: (OsmId, Vec<u8>)| (m.0, m.1@)) == target.subrange(0, i as int),
        decreases ids@.len() - i,
    {
        let m = member_of(r.types[i], ids[i])?;
        let role = r.roles_sid[i];
        if role < 0 || role as usize >= b.stringtable.len() {
            return Err(Error::FormatError);
        }
        let ghost old_refs = refs@;
        let entry = (m, copy_bytes(&b.stringtable[role as usize]));
        refs.push(entry);
        proof {
            assert(refs@ == old_refs.push(entry));
            assert(refs@.map_values(|m: (OsmId, Vec<u8>)| (m.0, m.1@)) =~= old_refs.map_values(
                |m: (OsmId, Vec<u8>)| (m.0, m.1@),
            ).push((entry.0, entry.1@)));
        }
        i = i + 1;
        assert(refs@.map_values(|m: (OsmId, Vec<u8>)| (m.0, m.1@)) =~= target.subrange(0, i as int));
    }
    assert(target.subrange(0, i as int) =~= target);
    let res = Relation { id: r.id, refs, tags };
    Ok(res)
}
// ---------------------------------------------------------------- bulk points

/// Where the run of (key, value) pairs that starts at `pos` ends: the index
/// of its `0` separator, or the length where none is left.
pub open spec fn run_end(kv: Seq<i32>, pos: int) -> int
    decreases kv.len() + 1 - pos,
{
    if pos < 0 || pos >= kv.len() {
        kv.len() as int
    } else if kv[pos] == 0 {
        pos
    } else {
        run_end(kv, pos + 2)
    }
}

/// Where the run of point `j` starts.
pub open spec fn run_start(kv: Seq<i32>, j: nat) -> int
    decreases j,
{
    if j == 0 {
        0
    } else {
        run_end(kv, run_start(kv, (j - 1) as nat)) + 1
    }
}

/// The run at `s` is closed by a separator and every index in it is valid.
pub open spec fn run_ok(st: Seq<Seq<u8>>, kv: Seq<i32>, s: int) -> bool {
    &&& run_end(kv, s) < kv.len()
    &&& forall|p: int| s <= p < run_end(kv, s) ==> 0 <= #[trigger] kv[p] < st.len()
}

pub open spec fn run_tags(st: Seq<Seq<u8>>, kv: Seq<i32>, s: int) -> TagsV {
    Seq::new(
        ((run_end(kv, s) - s) / 2) as nat,
        |k: int| (st[kv[s + 2 * k] as int], st[kv[s + 2 * k + 1] as int]),
    )
}

pub open spec fn dense_ok(b: &PrimitiveBlock, d: &DenseNodes) -> bool {
    &&& d.lat@.len() == d.id@.len()
    &&& d.lon@.len() == d.id@.len()
    &&& deltas_fit(d.id@)
    &&& deltas_fit(d.lat@)
    &&& deltas_fit(d.lon@)
    &&& forall|i: int|
        0 <= i < d.id@.len() ==> fits_i64(
            scaled(b.lat_offset, b.granularity, #[trigger] delta_decoded(d.lat@)[i]),
        )
    &&& forall|i: int|
        0 <= i < d.id@.len() ==> fits_i64(
            scaled(b.lon_offset, b.granularity, #[trigger] delta_decoded(d.lon@)[i]),
        )
    &&& d.keys_vals@.len() > 0 ==> forall|j: nat|
        j < d.id@.len() ==> run_ok(b.strings(), d.keys_vals@, #[trigger] run_start(d.keys_vals@, j))
}

pub open spec fn dense_node_view(b: &PrimitiveBlock, d: &DenseNodes, i: int) -> NodeV {
    NodeV {
        id: delta_decoded(d.id@)[i] as i64,
        lat: scaled(b.lat_offset, b.granularity, delta_decoded(d.lat@)[i]) as i64,
        lon: scaled(b.lon_offset, b.granularity, delta_decoded(d.lon@)[i]) as i64,
        tags: if d.keys_vals@.len() == 0 {
            Seq::empty()
        } else {
            run_tags(b.strings(), d.keys_vals@, run_start(d.keys_vals@, i as nat))
        },
    }
}

proof fn lemma_run_end_bounds(kv: Seq<i32>, pos: int)
    requires
        0 <= pos,
    ensures
        run_end(kv, pos) >= pos || run_end(kv, pos) == kv.len(),
        run_end(kv, pos) <= kv.len(),
        run_end(kv, pos) < kv.len() ==> (run_end(kv, pos) - pos) % 2 == 0 && run_end(kv, pos)
            >= pos,
    decreases kv.len() + 1 - pos,
{
    if pos < kv.len() && kv[pos] != 0 {
        lemma_run_end_bounds(kv, pos + 2);
    }
}

/// Reads the tag run that starts at `s`; returns the tags and the position
/// after its separator.
fn dense_run(b: &PrimitiveBlock, kv: &Vec<i32>, s: usize) -> (r: Result<(Tags, usize), Error>)
    ensures
        r is Ok <==> run_ok(b.strings(), kv@, s as int),
        r is Err ==> r == Err::<(Tags, usize), Error>(Error::FormatError),
        r matches Ok((t, e)) ==> tags_view(t@) == run_tags(b.strings(), kv@, s as int) && e
            == run_end(kv@, s as int) + 1,
{
    let ghost st = b.strings();
    let ghost target = run_tags(st, kv@, s as int);
    proof {
        lemma_run_end_bounds(kv@, s as int);
    }
    let mut out: Tags = Vec::new();
    let mut pos: usize = s;
    while pos < kv.len() && kv[pos] != 0
        invariant
            s <= pos,
            (pos - s) % 2 == 0,
            st == b.strings(),
            target == run_tags(st, kv@, s as int),
            run_end(kv@, pos as int) == run_end(kv@, s as int),
            pos <= kv@.len() ==> pos as int <= run_end(kv@, s as int),
            forall|p: int| s <= p < pos ==> 0 <= #[trigger] kv@[p] < st.len(),
            tags_view(out@) =~= Seq::new(
                ((pos - s) / 2) as nat,
                |k: int| (st[kv@[s + 2 * k] as int], st[kv@[s + 2 * k + 1] as int]),
            ),
        decreases kv@.len() + 2 - pos,
    {
        proof {
            lemma_run_end_bounds(kv@, pos as int);
        }
        if pos + 1 >= kv.len() {
            proof {
                lemma_run_end_bounds(kv@, pos as int + 2);
            }
            return Err(Error::FormatError);
        }
        let k = kv[pos];
        let v = kv[pos + 1];
        if k < 0 || k as usize >= b.stringtable.len() || v < 0 || v as usize >= b.stringtable.len() {
            proof {
                lemma_run_end_bounds(kv@, pos as int + 2);
                if run_end(kv@, s as int) < kv@.len() {
                    assert(s <= pos + 1 < run_end(kv@, s as int));
                }
            }
            return Err(Error::FormatError);
        }
        let ghost old_out = out@;
        let pair = (copy_bytes(&b.stringtable[k as usize]), copy_bytes(&b.stringtable[v as usize]));
        out.push(pair);
        proof {
            assert(out@ == old_out.push(pair));
            assert(tags_view(out@) =~= tags_view(old_out).push((pair.0@, pair.1@)));
            lemma_run_end_bounds(kv@, pos as int + 2);
        }
        pos = pos + 2;
    }
    if pos >= kv.len() {
        return Err(Error::FormatError);
    }
    assert(run_end(kv@, pos as int) == pos);
    assert(tags_view(out@) =~= target);
    Ok((out, pos + 1))
}
/// Decodes the bulk-point form: ids and coordinates are delta-coded, and
/// tags come as one run per point.
pub fn dense_nodes(b: &PrimitiveBlock, d: &DenseNodes) -> (r: Result<Vec<OsmObj>, Error>)
    ensures
        r is Ok <==> dense_ok(b, d),
        r is Err ==> r == Err::<Vec<OsmObj>, Error>(Error::FormatError),
        r matches Ok(v) ==> v@.len() == d.id@.len() && forall|i: int|
            0 <= i < v@.len() ==> (#[trigger] v@[i])@ == ObjV::Node(dense_node_view(b, d, i)),
{
    if d.lat.len() != d.id.len() || d.lon.len() != d.id.len() {
        return Err(Error::FormatError);
    }
    let ids = delta_decode(&d.id)?;
    let lats = delta_decode(&d.lat)?;
    let lons = delta_decode(&d.lon)?;
    let kv = &d.keys_vals;
    let mut out: Vec<OsmObj> = Vec::new();
    let mut pos: usize = 0;
    let mut i: usize = 0;
    while i < ids.len()
        invariant
            i <= ids@.len(),
            ids@.len() == d.id@.len(),
            lats@.len() == d.id@.len(),
            lons@.len() == d.id@.len(),
            d.lat@.len() == d.id@.len(),
            d.lon@.len() == d.id@.len(),
            deltas_fit(d.id@),
            deltas_fit(d.lat@),
            deltas_fit(d.lon@),
            kv == &d.keys_vals,
            forall|k: int| 0 <= k < ids@.len() ==> ids@[k] as int == #[trigger] delta_decoded(d.id@)[k],
            forall|k: int| 0 <= k < ids@.len() ==> lats@[k] as int == #[trigger] delta_decoded(d.lat@)[k],
            forall|k: int| 0 <= k < ids@.len() ==> lons@[k] as int == #[trigger] delta_decoded(d.lon@)[k],
            forall|k: int|
                0 <= k < i ==> fits_i64(
                    scaled(b.lat_offset, b.granularity, #[trigger] delta_decoded(d.lat@)[k]),
                ),
            forall|k: int|
                0 <= k < i ==> fits_i64(
                    scaled(b.lon_offset, b.granularity, #[trigger] delta_decoded(d.lon@)[k]),
                ),
            kv@.len() > 0 ==> pos as int == run_start(kv@, i as nat),
            kv@.len() > 0 ==> forall|j: nat|
                j < i ==> run_ok(b.strings(), kv@, #[trigger] run_start(kv@, j)),
            out@.len() == i,
            forall|k: int| 0 <= k < i ==> (#[trigger] out@[k])@ == ObjV::Node(dense_node_view(b, d, k)),
        decreases ids@.len() - i,
    {
        let ghost dl = delta_decoded(d.lat@)[i as int];
        let ghost dn = delta_decoded(d.lon@)[i as int];
        let lat = match scale(b.lat_offset, b.granularity, lats[i]) {
            Ok(v) => v,
            Err(e) => {
                assert(!fits_i64(scaled(b.lat_offset, b.granularity, dl)));
                return Err(e);
            },
        };
        let lon = match scale(b.lon_offset, b.granularity, lons[i]) {
            Ok(v) => v,
            Err(e) => {
                assert(!fits_i64(scaled(b.lon_offset, b.granularity, dn)));
                return Err(e);
            },
        };
        let tags = if kv.len() == 0 {
            Vec::new()
        } else {
            match dense_run(b, kv, pos) {
                Ok((t, next)) => {
                    assert(run_start(kv@, (i + 1) as nat) == run_end(kv@, run_start(kv@, i as nat))
                        + 1);
                    pos = next;
                    t
                },
                Err(e) => {
                    assert(!run_ok(b.strings(), kv@, run_start(kv@, i as nat)));
                    return Err(e);
                },
            }
        };
        let node = Node { id: ids[i], lat_nano: lat, lon_nano: lon, tags };
        assert(node@.tags =~= dense_node_view(b, d, i as int).tags);
        out.push(OsmObj::Node(node));
        i = i + 1;
    }
    Ok(out)
}
// ---------------------------------------------------------------- groups and blocks

pub open spec fn group_ok(b: &PrimitiveBlock, g: &PrimitiveGroup) -> bool {
    match g {
        PrimitiveGroup::Nodes(ns) => forall|i: int| 0 <= i < ns@.len() ==> raw_node_ok(b, &#[trigger] ns@[i]),
        PrimitiveGroup::Dense(d) => dense_ok(b, d),
        PrimitiveGroup::Ways(ws) => forall|i: int| 0 <= i < ws@.len() ==> way_ok(b, &#[trigger] ws@[i]),
        PrimitiveGroup::Relations(rs) => forall|i: int|
            0 <= i < rs@.len() ==> relation_ok(b, &#[trigger] rs@[i]),
    }
}

/// The objects of one group, in order.
pub open spec fn group_objs(b: &PrimitiveBlock, g: &PrimitiveGroup) -> Seq<ObjV> {
    match g {
        PrimitiveGroup::Nodes(ns) => Seq::new(ns@.len(), |i: int| ObjV::Node(raw_node_view(b, &ns@[i]))),
        PrimitiveGroup::Dense(d) => Seq::new(d.id@.len(), |i: int| ObjV::Node(dense_node_view(b, d, i))),
        PrimitiveGroup::Ways(ws) => Seq::new(ws@.len(), |i: int| ObjV::Way(way_view(b, &ws@[i]))),
        PrimitiveGroup::Relations(rs) => Seq::new(
            rs@.len(),
            |i: int| ObjV::Relation(relation_view(b, &rs@[i])),
        ),
    }
}

pub open spec fn block_ok(b: &PrimitiveBlock) -> bool {
    forall|g: int| 0 <= g < b.groups@.len() ==> group_ok(b, &#[trigger] b.groups@[g])
}

/// The objects of the first `n` groups, in order.
pub open spec fn objs_upto(b: &PrimitiveBlock, n: int) -> Seq<ObjV>
    decreases n,
{
    if n <= 0 {
        Seq::empty()
    } else {
        objs_upto(b, n - 1) + group_objs(b, &b.groups@[n - 1])
    }
}

/// Every object of the block, group after group.
pub open spec fn block_objs(b: &PrimitiveBlock) -> Seq<ObjV> {
    objs_upto(b, b.groups@.len() as int)
}

/// Decodes one group into objects.
pub fn group_objects(b: &PrimitiveBlock, g: &PrimitiveGroup) -> (r: Result<Vec<OsmObj>, Error>)
    ensures
        r is Ok <==> group_ok(b, g),
        r is Err ==> r == Err::<Vec<OsmObj>, Error>(Error::FormatError),
        r matches Ok(v) ==> objs_view(v@) == group_objs(b, g),
{
    let ghost target = group_objs(b, g);
    let mut out: Vec<OsmObj> = Vec::new();
    match g {
        PrimitiveGroup::Nodes(ns) => {
            let mut i: usize = 0;
            while i < ns.len()
                invariant
                    i <= ns@.len(),
                    target == group_objs(b, g),
                    *g == PrimitiveGroup::Nodes(*ns),
                    forall|k: int| 0 <= k < i ==> raw_node_ok(b, &#[trigger] ns@[k]),
                    objs_view(out@) == target.subrange(0, i as int),
                decreases ns@.len() - i,
            {
                let n = simple_node(b, &ns[i])?;
                let ghost before = out@;
                let o = OsmObj::Node(n);
                out.push(o);
                proof {
                    lemma_objs_view_push(before, o);
                }
                i = i + 1;
                assert(objs_view(out@) =~= target.subrange(0, i as int));
            }
        },
        PrimitiveGroup::Dense(d) => {
            let nodes = dense_nodes(b, d)?;
            assert(objs_view(nodes@) =~= target);
            return Ok(nodes);
        },
        PrimitiveGroup::Ways(ws) => {
            let mut i: usize = 0;
            while i < ws.len()
                invariant
                    i <= ws@.len(),
                    target == group_objs(b, g),
                    *g == PrimitiveGroup::Ways(*ws),
                    forall|k: int| 0 <= k < i ==> way_ok(b, &#[trigger] ws@[k]),
                    objs_view(out@) == target.subrange(0, i as int),
                decreases ws@.len() - i,
            {
                let w = way(b, &ws[i])?;
                let ghost before = out@;
                let o = OsmObj::Way(w);
                out.push(o);
                proof {
                    lemma_objs_view_push(before, o);
                }
                i = i + 1;
                assert(objs_view(out@) =~= target.subrange(0, i as int));
            }
        },
        PrimitiveGroup::Relations(rs) => {
            let mut i: usize = 0;
            while i < rs.len()
                invariant
                    i <= rs@.len(),
                    target == group_objs(b, g),
                    *g == PrimitiveGroup::Relations(*rs),
                    forall|k: int| 0 <= k < i ==> relation_ok(b, &#[trigger] rs@[k]),
                    objs_view(out@) == target.subrange(0, i as int),
                decreases rs@.len() - i,
            {
                let r = relation(b, &rs[i])?;
                let ghost before = out@;
                let o = OsmObj::Relation(r);
                out.push(o);
                proof {
                    lemma_objs_view_push(before, o);
                }
                i = i + 1;
                assert(objs_view(out@) =~= target.subrange(0, i as int));
            }
        },
    }
    assert(target.subrange(0, target.len() as int) =~= target);
    Ok(out)
}

/// Decodes every object of a block, group after group; any malformed
/// group fails the whole block.
pub fn block_objects(b: &PrimitiveBlock) -> (r: Result<Vec<OsmObj>, Error>)
    ensures
        r is Ok <==> block_ok(b),
        r is Err ==> r == Err::<Vec<OsmObj>, Error>(Error::FormatError),
        r matches Ok(v) ==> objs_view(v@) == block_objs(b),
{
    let mut out: Vec<OsmObj> = Vec::new();
    let mut g: usize = 0;
    while g < b.groups.len()
        invariant
            g <= b.groups@.len(),
            forall|k: int| 0 <= k < g ==> group_ok(b, &#[trigger] b.groups@[k]),
            objs_view(out@) == objs_upto(b, g as int),
        decreases b.groups@.len() - g,
    {
        let mut objs = group_objects(b, &b.groups[g])?;
        let ghost before = out@;
        let ghost added = objs@;
        out.append(&mut objs);
        assert(objs_view(out@) =~= objs_view(before) + objs_view(added));
        g = g + 1;
    }
    Ok(out)
}

} // verus!
