use osmpbfreader::block::{
    block_objects, dense_nodes, relation, simple_node, way, DenseNodes, PrimitiveBlock,
    PrimitiveGroup, RawNode, RawRelation, RawWay,
};
use osmpbfreader::delta::{delta_decode, scale};
use osmpbfreader::{Error, OsmId, OsmObj};

fn table() -> Vec<Vec<u8>> {
    vec![
        b"".to_vec(),
        b"highway".to_vec(),
        b"primary".to_vec(),
        b"name".to_vec(),
        b"inner".to_vec(),
    ]
}

fn block(groups: Vec<PrimitiveGroup>) -> PrimitiveBlock {
    PrimitiveBlock::new(table(), groups)
}

#[test]
fn delta_decode_bulk_ids() {
    let ids = delta_decode(&vec![100, -30, 10]).unwrap();
    assert_eq!(ids, vec![100, 70, 80]);
}

#[test]
fn delta_decode_empty_and_overflow() {
    assert_eq!(delta_decode(&vec![]).unwrap(), Vec::<i64>::new());
    assert_eq!(delta_decode(&vec![i64::MAX, 1]), Err(Error::FormatError));
    assert_eq!(delta_decode(&vec![i64::MIN, 5]).unwrap(), vec![i64::MIN, i64::MIN + 5]);
}

#[test]
fn coordinate_scaling() {
    let nano = scale(0, 100, 123456).unwrap();
    assert_eq!(nano, 12345600);
    let degrees = nano as f64 / 1_000_000_000.0;
    assert!((degrees - 0.0123456).abs() < 1e-12);
    assert_eq!(scale(1000, 100, -2).unwrap(), 800);
    assert_eq!(scale(i64::MAX, 100, 1), Err(Error::FormatError));
}

#[test]
fn individual_and_bulk_point_agree() {
    let b = block(vec![]);
    let n = RawNode { id: 42, keys: vec![1, 3], vals: vec![2, 0], lat: 485000, lon: -12000 };
    let single = simple_node(&b, &n).unwrap();
    let d = DenseNodes {
        id: vec![42],
        lat: vec![485000],
        lon: vec![-12000],
        keys_vals: vec![1, 2, 3, 0, 0],
    };
    let bulk = dense_nodes(&b, &d).unwrap();
    assert_eq!(bulk.len(), 1);
    match &bulk[0] {
        OsmObj::Node(m) => {
            assert_eq!(m.id, single.id);
            assert_eq!(m.lat_nano, single.lat_nano);
            assert_eq!(m.lon_nano, single.lon_nano);
            assert_eq!(m.tags, single.tags);
        }
        _ => panic!("not a node"),
    }
    assert_eq!(single.lat_nano, 48500000);
    assert_eq!(
        single.tags,
        vec![(b"highway".to_vec(), b"primary".to_vec()), (b"name".to_vec(), b"".to_vec())]
    );
}

#[test]
fn bulk_tags_runs_per_point() {
    let b = block(vec![]);
    let d = DenseNodes {
        id: vec![1, 1, 1],
        lat: vec![0, 10, 10],
        lon: vec![0, 0, 0],
        keys_vals: vec![0, 1, 2, 0, 3, 4, 0],
    };
    let nodes = dense_nodes(&b, &d).unwrap();
    let ids: Vec<OsmId> = nodes.iter().map(|o| o.id()).collect();
    assert_eq!(ids, vec![OsmId::Node(1), OsmId::Node(2), OsmId::Node(3)]);
    match (&nodes[0], &nodes[1], &nodes[2]) {
        (OsmObj::Node(a), OsmObj::Node(c), OsmObj::Node(e)) => {
            assert!(a.tags.is_empty());
            assert_eq!(c.tags, vec![(b"highway".to_vec(), b"primary".to_vec())]);
            assert_eq!(e.tags, vec![(b"name".to_vec(), b"inner".to_vec())]);
            assert_eq!(c.lat_nano, 1000);
            assert_eq!(e.lat_nano, 2000);
        }
        _ => panic!("not nodes"),
    }
}

#[test]
fn bulk_without_tags_and_malformed_runs() {
    let b = block(vec![]);
    let plain = DenseNodes { id: vec![5, 1], lat: vec![0, 0], lon: vec![0, 0], keys_vals: vec![] };
    assert_eq!(dense_nodes(&b, &plain).unwrap().len(), 2);
    let unclosed = DenseNodes { id: vec![5], lat: vec![0], lon: vec![0], keys_vals: vec![1, 2] };
    assert!(matches!(dense_nodes(&b, &unclosed), Err(Error::FormatError)));
    let odd = DenseNodes { id: vec![5], lat: vec![0], lon: vec![0], keys_vals: vec![1] };
    assert!(matches!(dense_nodes(&b, &odd), Err(Error::FormatError)));
    let bad_index = DenseNodes { id: vec![5], lat: vec![0], lon: vec![0], keys_vals: vec![9, 1, 0] };
    assert!(matches!(dense_nodes(&b, &bad_index), Err(Error::FormatError)));
    let short = DenseNodes { id: vec![5, 6], lat: vec![0], lon: vec![0, 0], keys_vals: vec![] };
    assert!(matches!(dense_nodes(&b, &short), Err(Error::FormatError)));
}

#[test]
fn way_refs_are_delta_coded() {
    let b = block(vec![]);
    let w = RawWay { id: 7, keys: vec![1], vals: vec![2], refs: vec![10, 5, -3] };
    let out = way(&b, &w).unwrap();
    assert_eq!(out.nodes, vec![10, 15, 12]);
    assert_eq!(out.tags, vec![(b"highway".to_vec(), b"primary".to_vec())]);
    let bad = RawWay { id: 7, keys: vec![1, 2], vals: vec![2], refs: vec![] };
    assert!(matches!(way(&b, &bad), Err(Error::FormatError)));
}

#[test]
fn relation_members() {
    let b = block(vec![]);
    let r = RawRelation {
        id: 9,
        keys: vec![],
        vals: vec![],
        roles_sid: vec![4, 0, 0],
        memids: vec![3, 1, -2],
        types: vec![0, 1, 2],
    };
    let out = relation(&b, &r).unwrap();
    assert_eq!(
        out.refs,
        vec![
            (OsmId::Node(3), b"inner".to_vec()),
            (OsmId::Way(4), b"".to_vec()),
            (OsmId::Relation(2), b"".to_vec()),
        ]
    );
    let bad_kind = RawRelation {
        id: 9,
        keys: vec![],
        vals: vec![],
        roles_sid: vec![0],
        memids: vec![1],
        types: vec![3],
    };
    assert!(matches!(relation(&b, &bad_kind), Err(Error::FormatError)));
}

#[test]
fn block_flattens_groups_in_order() {
    let b = block(vec![
        PrimitiveGroup::Ways(vec![RawWay { id: 1, keys: vec![], vals: vec![], refs: vec![1, 1] }]),
        PrimitiveGroup::Nodes(vec![RawNode { id: 1, keys: vec![], vals: vec![], lat: 1, lon: 2 }]),
        PrimitiveGroup::Dense(DenseNodes { id: vec![2], lat: vec![0], lon: vec![0], keys_vals: vec![] }),
    ]);
    let objs = block_objects(&b).unwrap();
    let ids: Vec<OsmId> = objs.iter().map(|o| o.id()).collect();
    assert_eq!(ids, vec![OsmId::Way(1), OsmId::Node(1), OsmId::Node(2)]);
    let mut custom = block(vec![PrimitiveGroup::Nodes(vec![RawNode {
        id: 1,
        keys: vec![],
        vals: vec![],
        lat: 3,
        lon: 4,
    }])]);
    custom.granularity = 1000;
    custom.lat_offset = 7;
    match &block_objects(&custom).unwrap()[0] {
        OsmObj::Node(n) => {
            assert_eq!(n.lat_nano, 3007);
            assert_eq!(n.lon_nano, 4000);
        }
        _ => panic!("not a node"),
    }
}
