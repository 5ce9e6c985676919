use handshake::messages::{NodeToNodeVersionData, ProposeVersion};

fn table(versions: Vec<i64>, magic: u32) -> Vec<(i128, Vec<NodeToNodeVersionData>)> {
    match ProposeVersion::create_version_table(&versions, magic) {
        ProposeVersion::VersionTable(table) => table,
        ProposeVersion::Index(_) => panic!("a table was asked for"),
    }
}

fn offered(magic: u32) -> Vec<NodeToNodeVersionData> {
    vec![
        NodeToNodeVersionData::NetworkMagic(magic),
        NodeToNodeVersionData::InitiatorAndResponderDiffusionMode(false),
    ]
}

#[test]
fn table_of_ascending_versions() {
    assert_eq!(
        table(vec![7, 8, 9, 10], 1),
        vec![(7, offered(1)), (8, offered(1)), (9, offered(1)), (10, offered(1))]
    );
}

#[test]
fn table_drops_repeated_versions_and_sorts() {
    assert_eq!(
        table(vec![8, 7, 8, 9], 42),
        vec![(7, offered(42)), (8, offered(42)), (9, offered(42))]
    );
}

#[test]
fn table_of_descending_versions() {
    assert_eq!(
        table(vec![10, 9, 8, 7], 764824073),
        vec![
            (7, offered(764824073)),
            (8, offered(764824073)),
            (9, offered(764824073)),
            (10, offered(764824073))
        ]
    );
}

#[test]
fn table_of_no_versions_is_empty() {
    assert_eq!(table(vec![], 1), vec![]);
}

#[test]
fn table_of_one_version_repeated() {
    assert_eq!(table(vec![5, 5, 5], 0), vec![(5, offered(0))]);
}

#[test]
fn table_of_negative_and_extreme_versions() {
    assert_eq!(
        table(vec![0, i64::MAX, -1, i64::MIN, 0], 4294967295),
        vec![
            (i64::MIN as i128, offered(4294967295)),
            (-1, offered(4294967295)),
            (0, offered(4294967295)),
            (i64::MAX as i128, offered(4294967295)),
        ]
    );
}

#[test]
fn table_does_not_depend_on_the_order_of_the_versions() {
    let first = table(vec![3, 1, 2, 3, 1], 9);
    let second = table(vec![1, 2, 3], 9);
    let third = table(vec![2, 2, 3, 1], 9);
    assert_eq!(first, second);
    assert_eq!(second, third);
}

#[test]
fn table_is_strictly_ascending() {
    let versions = vec![14, 3, 9, 3, 27, 1, 14, 8, 0, 27, 5];
    let built = table(versions.clone(), 7);
    for pair in built.windows(2) {
        assert!(pair[0].0 < pair[1].0);
    }
    for version in &versions {
        assert_eq!(
            built.iter().filter(|entry| entry.0 == *version as i128).count(),
            1
        );
    }
    for entry in &built {
        assert!(versions.iter().any(|version| *version as i128 == entry.0));
        assert_eq!(entry.1, offered(7));
    }
}
