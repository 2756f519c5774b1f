use vstd::prelude::*;

verus! {

/// An identifier tagged with the kind of object it names.
#[derive(Clone, Copy, Debug, PartialEq, Eq, Structural, Hash, PartialOrd, Ord)]
pub enum OsmId {
    Node(i64),
    Way(i64),
    Relation(i64),
}

/// Tags as a sequence of (key, value) byte strings.
pub type Tags = Vec<(Vec<u8>, Vec<u8>)>;

pub type TagsV = Seq<(Seq<u8>, Seq<u8>)>;

pub open spec fn tags_view(t: Seq<(Vec<u8>, Vec<u8>)>) -> TagsV {
    t.map_values(|p: (Vec<u8>, Vec<u8>)| (p.0@, p.1@))
}

/// A point. Coordinates are in nanodegrees.
#[derive(Clone, Debug)]
pub struct Node {
    pub id: i64,
    pub lat_nano: i64,
    pub lon_nano: i64,
    pub tags: Tags,
}

/// A path through an ordered sequence of nodes.
#[derive(Clone, Debug)]
pub struct Way {
    pub id: i64,
    pub nodes: Vec<i64>,
    pub tags: Tags,
}

/// An ordered group of members, each with a role.
#[derive(Clone, Debug)]
pub struct Relation {
    pub id: i64,
    pub refs: Vec<(OsmId, Vec<u8>)>,
    pub tags: Tags,
}

#[derive(Clone, Debug)]
pub enum OsmObj {
    Node(Node),
    Way(Way),
    Relation(Relation),
}

pub struct NodeV {
    pub id: i64,
    pub lat: i64,
    pub lon: i64,
    pub tags: TagsV,
}

pub struct WayV {
    pub id: i64,
    pub nodes: Seq<i64>,
    pub tags: TagsV,
}

pub struct RelationV {
    pub id: i64,
    pub refs: Seq<(OsmId, Seq<u8>)>,
    pub tags: TagsV,
}

pub enum ObjV {
    Node(NodeV),
    Way(WayV),
    Relation(RelationV),
}

impl View for Node {
    type V = NodeV;

    open spec fn view(&self) -> NodeV {
        NodeV { id: self.id, lat: self.lat_nano, lon: self.lon_nano, tags: tags_view(self.tags@) }
    }
}

impl View for Way {
    type V = WayV;

    open spec fn view(&self) -> WayV {
        WayV { id: self.id, nodes: self.nodes@, tags: tags_view(self.tags@) }
    }
}

impl View for Relation {
    type V = RelationV;

    open spec fn view(&self) -> RelationV {
        RelationV {
            id: self.id,
            refs: self.refs@.map_values(|m: (OsmId, Vec<u8>)| (m.0, m.1@)),
            tags: tags_view(self.tags@),
        }
    }
}

impl View for OsmObj {
    type V = ObjV;

    open spec fn view(&self) -> ObjV {
        match self {
            OsmObj::Node(n) => ObjV::Node(n@),
            OsmObj::Way(w) => ObjV::Way(w@),
            OsmObj::Relation(r) => ObjV::Relation(r@),
        }
    }
}

pub open spec fn objs_view(v: Seq<OsmObj>) -> Seq<ObjV> {
    v.map_values(|o: OsmObj| o@)
}

pub proof fn lemma_objs_view_push(s: Seq<OsmObj>, o: OsmObj)
    ensures
        objs_view(s.push(o)) == objs_view(s).push(o@),
{
    assert(objs_view(s.push(o)) =~= objs_view(s).push(o@));
}

impl ObjV {
    pub open spec fn id(self) -> OsmId {
        match self {
            ObjV::Node(n) => OsmId::Node(n.id),
            ObjV::Way(w) => OsmId::Way(w.id),
            ObjV::Relation(r) => OsmId::Relation(r.id),
        }
    }

    /// The ids this object refers to directly, in order.
    pub open spec fn refs(self) -> Seq<OsmId> {
        match self {
            ObjV::Node(_) => Seq::empty(),
            ObjV::Way(w) => w.nodes.map_values(|n: i64| OsmId::Node(n)),
            ObjV::Relation(r) => r.refs.map_values(|m: (OsmId, Seq<u8>)| m.0),
        }
    }
}

impl OsmObj {
    pub fn id(&self) -> (r: OsmId)
        ensures
            r == self@.id(),
    {
        match self {
            OsmObj::Node(n) => OsmId::Node(n.id),
            OsmObj::Way(w) => OsmId::Way(w.id),
            OsmObj::Relation(r) => OsmId::Relation(r.id),
        }
    }

    /// The ids this object refers to directly, in order.
    pub fn refs(&self) -> (r: Vec<OsmId>)
        ensures
            r@ == self@.refs(),
    {
        let mut out: Vec<OsmId> = Vec::new();
        match self {
            OsmObj::Node(_) => {},
            OsmObj::Way(w) => {
                let mut i: usize = 0;
                while i < w.nodes.len()
                    invariant
                        i <= w.nodes.len(),
                        out@ == w.nodes@.subrange(0, i as int).map_values(|n: i64| OsmId::Node(n)),
                    decreases w.nodes.len() - i,
                {
                    out.push(OsmId::Node(w.nodes[i]));
                    i = i + 1;
                    assert(out@ =~= w.nodes@.subrange(0, i as int).map_values(|n: i64| OsmId::Node(n)));
                }
                assert(w.nodes@.subrange(0, i as int) =~= w.nodes@);
            },
            OsmObj::Relation(r) => {
                let mut i: usize = 0;
                while i < r.refs.len()
                    invariant
                        i <= r.refs.len(),
                        out@ == self@.refs().subrange(0, i as int),
                        self@ == ObjV::Relation(r@),
                    decreases r.refs.len() - i,
                {
                    out.push(r.refs[i].0);
                    i = i + 1;
                    assert(out@ =~= self@.refs().subrange(0, i as int));
                }
                assert(self@.refs().subrange(0, i as int) =~= self@.refs());
            },
        }
        out
    }

    pub fn is_node(&self) -> (r: bool)
        ensures
            r == self@ is Node,
    {
        matches!(self, OsmObj::Node(_))
    }

    pub fn is_way(&self) -> (r: bool)
        ensures
            r == self@ is Way,
    {
        matches!(self, OsmObj::Way(_))
    }

    pub fn is_relation(&self) -> (r: bool)
        ensures
            r == self@ is Relation,
    {
        matches!(self, OsmObj::Relation(_))
    }
}

} // verus!
