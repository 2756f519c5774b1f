use osmpbfreader::block::{DenseNodes, PrimitiveBlock, PrimitiveGroup, RawNode, RawRelation, RawWay};
use osmpbfreader::{get_objs_and_deps, Error, OsmId, OsmObj, OsmPbfReader};

fn strings() -> Vec<Vec<u8>> {
    vec![b"".to_vec(), b"highway".to_vec(), b"yes".to_vec()]
}

fn nodes(ids: Vec<i64>) -> PrimitiveBlock {
    let n = ids.len();
    let mut deltas = Vec::new();
    let mut prev = 0;
    for id in ids {
        deltas.push(id - prev);
        prev = id;
    }
    PrimitiveBlock::new(
        strings(),
        vec![PrimitiveGroup::Dense(DenseNodes {
            id: deltas,
            lat: vec![0; n],
            lon: vec![0; n],
            keys_vals: vec![],
        })],
    )
}

fn way_block(id: i64, refs: Vec<i64>, tagged: bool) -> PrimitiveBlock {
    let (keys, vals) = if tagged { (vec![1], vec![2]) } else { (vec![], vec![]) };
    PrimitiveBlock::new(
        strings(),
        vec![PrimitiveGroup::Ways(vec![RawWay { id, keys, vals, refs }])],
    )
}

fn ids(objs: &Vec<OsmObj>) -> Vec<OsmId> {
    let mut v: Vec<OsmId> = objs.iter().map(|o| o.id()).collect();
    v.sort();
    v
}

fn sample() -> OsmPbfReader {
    // Way 10 refers to nodes 1, 2, 3; node 2 stands after the way.
    OsmPbfReader::new(vec![
        Ok(nodes(vec![1, 3, 4])),
        Ok(way_block(10, vec![1, 1, 1], true)),
        Ok(nodes(vec![2, 5])),
        Ok(way_block(11, vec![4, 1], false)),
    ])
}

#[test]
fn closure_of_everything() {
    let mut r = sample();
    let objs = get_objs_and_deps(&mut r, |_o: &OsmObj| true).unwrap();
    assert_eq!(objs.len(), 7);
    assert_eq!(
        ids(&objs),
        vec![
            OsmId::Node(1),
            OsmId::Node(2),
            OsmId::Node(3),
            OsmId::Node(4),
            OsmId::Node(5),
            OsmId::Way(10),
            OsmId::Way(11),
        ]
    );
}

#[test]
fn closure_of_nothing() {
    let mut r = sample();
    let objs = r.get_objs_and_deps(|_o: &OsmObj| false).unwrap();
    assert!(objs.is_empty());
}

#[test]
fn forward_reference_is_found() {
    let mut r = sample();
    let objs = r
        .get_objs_and_deps(|o: &OsmObj| match o {
            OsmObj::Way(w) => !w.tags.is_empty(),
            _ => false,
        })
        .unwrap();
    assert_eq!(
        ids(&objs),
        vec![OsmId::Node(1), OsmId::Node(2), OsmId::Node(3), OsmId::Way(10)]
    );
    assert_eq!(r.pos, 0);
}

#[test]
fn dangling_reference_is_left_out() {
    let mut r = OsmPbfReader::new(vec![
        Ok(way_block(20, vec![1, 98], false)),
        Ok(nodes(vec![1])),
    ]);
    let objs = r.get_objs_and_deps(|o: &OsmObj| o.is_way()).unwrap();
    assert_eq!(ids(&objs), vec![OsmId::Node(1), OsmId::Way(20)]);
}

#[test]
fn relation_chain_and_cycle() {
    let rel = |id: i64, member: i64, kind: i32| RawRelation {
        id,
        keys: vec![],
        vals: vec![],
        roles_sid: vec![0],
        memids: vec![member],
        types: vec![kind],
    };
    let mut r = OsmPbfReader::new(vec![
        Ok(PrimitiveBlock::new(
            strings(),
            vec![PrimitiveGroup::Relations(vec![rel(1, 2, 2), rel(3, 4, 2)])],
        )),
        Ok(PrimitiveBlock::new(
            strings(),
            vec![PrimitiveGroup::Relations(vec![rel(2, 3, 2), rel(4, 1, 2)])],
        )),
    ]);
    let objs = r
        .get_objs_and_deps(|o: &OsmObj| o.id() == OsmId::Relation(1))
        .unwrap();
    assert_eq!(
        ids(&objs),
        vec![
            OsmId::Relation(1),
            OsmId::Relation(2),
            OsmId::Relation(3),
            OsmId::Relation(4),
        ]
    );
}

#[test]
fn corrupt_segment_fails_the_query() {
    let mut bad_read = OsmPbfReader::new(vec![Ok(nodes(vec![1])), Err(Error::Io)]);
    assert_eq!(
        bad_read.get_objs_and_deps(|_o: &OsmObj| true).err(),
        Some(Error::Io)
    );
    let broken = PrimitiveBlock::new(
        strings(),
        vec![PrimitiveGroup::Ways(vec![RawWay { id: 1, keys: vec![1], vals: vec![], refs: vec![] }])],
    );
    let mut bad_block = OsmPbfReader::new(vec![Ok(nodes(vec![1])), Ok(broken)]);
    assert_eq!(
        bad_block.get_objs_and_deps(|o: &OsmObj| o.is_node()).err(),
        Some(Error::FormatError)
    );
}

#[test]
fn sequential_reading_and_rewind() {
    let mut r = sample();
    let mut count = 0;
    while let Some(objs) = r.next_objects() {
        count += objs.unwrap().len();
    }
    assert_eq!(count, 7);
    assert!(r.next_objects().is_none());
    r.rewind();
    assert_eq!(r.next_objects().unwrap().unwrap().len(), 3);
}

#[test]
fn same_point_in_either_form_gives_same_closure() {
    let table = vec![b"".to_vec(), b"name".to_vec(), b"x".to_vec()];
    let single = PrimitiveBlock::new(
        table.clone(),
        vec![PrimitiveGroup::Nodes(vec![RawNode {
            id: 5,
            keys: vec![1],
            vals: vec![2],
            lat: 123456,
            lon: -654321,
        }])],
    );
    let bulk = PrimitiveBlock::new(
        table,
        vec![PrimitiveGroup::Dense(DenseNodes {
            id: vec![5],
            lat: vec![123456],
            lon: vec![-654321],
            keys_vals: vec![1, 2, 0],
        })],
    );
    let a = OsmPbfReader::new(vec![Ok(single)]).get_objs_and_deps(|_o: &OsmObj| true).unwrap();
    let b = OsmPbfReader::new(vec![Ok(bulk)]).get_objs_and_deps(|_o: &OsmObj| true).unwrap();
    assert_eq!(a.len(), 1);
    assert_eq!(b.len(), 1);
    match (&a[0], &b[0]) {
        (OsmObj::Node(x), OsmObj::Node(y)) => {
            assert_eq!(x.id, 5);
            assert_eq!(x.id, y.id);
            assert_eq!(x.lat_nano, 12345600);
            assert_eq!(x.lat_nano, y.lat_nano);
            assert_eq!(x.lon_nano, -65432100);
            assert_eq!(x.lon_nano, y.lon_nano);
            assert_eq!(x.tags, vec![(b"name".to_vec(), b"x".to_vec())]);
            assert_eq!(x.tags, y.tags);
        }
        _ => panic!("not nodes"),
    }
}
