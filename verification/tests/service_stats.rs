use tezedge_node::channel::ContextAction;
use tezedge_node::service_stats::{
    add_action, can_record_actions, fat_tail_id, fat_tail_position, record_action,
    record_actions, remove_values, StorageStats,
};

fn key(parts: &[&str]) -> Vec<String> {
    parts.iter().map(|p| p.to_string()).collect()
}

fn get(key_parts: &[&str]) -> ContextAction {
    ContextAction::Get {
        context_hash: None,
        block_hash: None,
        operation_hash: None,
        key: key(key_parts),
        start_time: 0,
        end_time: 0,
    }
}

fn set(key_parts: &[&str], value: Vec<u8>) -> ContextAction {
    ContextAction::SetValue {
        context_hash: Some(vec![1]),
        block_hash: Some(vec![2]),
        operation_hash: None,
        key: key(key_parts),
        value,
        value_as_json: Some("{}".to_string()),
        start_time: 11,
        end_time: 12,
        tezedge_time: 13,
    }
}

fn commit() -> ContextAction {
    ContextAction::Commit {
        parent_context_hash: None,
        block_hash: None,
        new_context_hash: vec![3],
        start_time: 0,
        end_time: 0,
    }
}

/// (kind, total, [(type, count)]) sorted by kind and type.
fn snapshot(stats: &StorageStats) -> Vec<(String, u32, Vec<(String, u32)>)> {
    let entries = stats.action_stats();
    let mut out = Vec::new();
    for i in 0..entries.len() {
        let kind = entries.value_at(i);
        let mut types = Vec::new();
        for j in 0..kind.action_type_stats.len() {
            types.push((
                kind.action_type_stats.key_at(j).clone(),
                kind.action_type_stats.value_at(j).total_actions,
            ));
        }
        types.sort();
        out.push((entries.key_at(i).clone(), kind.total_actions, types));
    }
    out.sort();
    out
}

#[test]
fn add_action_counts_first_key_segment() {
    let mut stats = StorageStats::new();
    let k = key(&["contracts", "index", "x"]);
    let keys = add_action(&mut stats, "GET", Some(&k));
    assert_eq!(keys.action_name, "GET");
    assert_eq!(keys.action_type.as_deref(), Some("contracts"));
    assert_eq!(snapshot(&stats), vec![("GET".to_string(), 1, vec![("contracts".to_string(), 1)])]);
}

#[test]
fn add_action_under_data_counts_second_segment() {
    let mut stats = StorageStats::new();
    let k = key(&["data", "rolls", "owner"]);
    let keys = add_action(&mut stats, "SET", Some(&k));
    assert_eq!(keys.action_type.as_deref(), Some("rolls"));
    let k2 = key(&["data"]);
    let keys2 = add_action(&mut stats, "SET", Some(&k2));
    assert_eq!(keys2.action_type.as_deref(), Some("data"));
    assert_eq!(
        snapshot(&stats),
        vec![("SET".to_string(), 2, vec![("data".to_string(), 1), ("rolls".to_string(), 1)])]
    );
}

#[test]
fn add_action_without_key_has_no_type() {
    let mut stats = StorageStats::new();
    let keys = add_action(&mut stats, "COMMIT", None);
    assert!(keys.action_type.is_none());
    let empty: Vec<String> = Vec::new();
    let keys2 = add_action(&mut stats, "COMMIT", Some(&empty));
    assert!(keys2.action_type.is_none());
    assert_eq!(snapshot(&stats), vec![("COMMIT".to_string(), 2, vec![])]);
}

#[test]
fn record_action_names_each_kind() {
    let mut stats = StorageStats::new();
    let actions = vec![
        set(&["a"], vec![1]),
        ContextAction::Delete { context_hash: None, block_hash: None, operation_hash: None, key: key(&["b"]), start_time: 0, end_time: 0 },
        ContextAction::RemoveRecursively { context_hash: None, block_hash: None, operation_hash: None, key: key(&["c"]), start_time: 0, end_time: 0 },
        ContextAction::Copy { context_hash: None, block_hash: None, operation_hash: None, from_key: key(&["d"]), to_key: key(&["e"]), start_time: 0, end_time: 0 },
        ContextAction::Checkout { context_hash: vec![], start_time: 0, end_time: 0 },
        commit(),
        ContextAction::Mem { context_hash: None, block_hash: None, operation_hash: None, key: key(&["f"]), start_time: 0, end_time: 0 },
        ContextAction::DirMem { context_hash: None, block_hash: None, operation_hash: None, key: key(&["g"]), start_time: 0, end_time: 0 },
        get(&["h"]),
        ContextAction::Fold { context_hash: None, block_hash: None, operation_hash: None, key: key(&["i"]), start_time: 0, end_time: 0 },
    ];
    let mut names = Vec::new();
    for a in &actions {
        assert!(stats.can_record(a));
        let keys = record_action(&mut stats, a).expect("counted");
        names.push((keys.action_name, keys.action_type));
    }
    let expected: Vec<(String, Option<String>)> = vec![
        ("SET", Some("a")), ("DEL", Some("b")), ("REMREC", Some("c")), ("COPY", None),
        ("CHECKOUT", None), ("COMMIT", None), ("MEM", Some("f")), ("DIRMEM", Some("g")),
        ("GET", Some("h")), ("FOLD", Some("i")),
    ]
    .into_iter()
    .map(|(n, t)| (n.to_string(), t.map(|t| t.to_string())))
    .collect();
    assert_eq!(names, expected);
    assert_eq!(stats.action_stats().len(), 10);
}

#[test]
fn record_action_ignores_shutdown() {
    let mut stats = StorageStats::new();
    assert!(record_action(&mut stats, &ContextAction::Shutdown).is_none());
    assert_eq!(stats.action_stats().len(), 0);
}

#[test]
fn recording_order_does_not_matter() {
    let actions = vec![get(&["data", "x"]), commit(), get(&["y"]), get(&["data", "x"]), set(&["y"], vec![])];
    let mut forward = StorageStats::new();
    for a in &actions {
        record_action(&mut forward, a);
    }
    let mut backward = StorageStats::new();
    for a in actions.iter().rev() {
        record_action(&mut backward, a);
    }
    assert_eq!(snapshot(&forward), snapshot(&backward));
    assert_eq!(
        snapshot(&forward),
        vec![
            ("COMMIT".to_string(), 1, vec![]),
            ("GET".to_string(), 3, vec![("x".to_string(), 2), ("y".to_string(), 1)]),
            ("SET".to_string(), 1, vec![("y".to_string(), 1)]),
        ]
    );
}

#[test]
fn type_counts_stay_within_kind_count() {
    let mut stats = StorageStats::new();
    for a in [get(&["a"]), get(&[]), get(&["a"]), get(&["b"])].iter() {
        record_action(&mut stats, a);
    }
    for (_, total, types) in snapshot(&stats) {
        for (_, c) in types {
            assert!(c <= total);
        }
    }
}

#[test]
fn remove_values_clears_set_values_only() {
    let actions = vec![set(&["a"], vec![1, 2, 3]), commit(), get(&["b"])];
    let out = remove_values(actions);
    assert_eq!(out.len(), 3);
    match &out[0] {
        ContextAction::SetValue { context_hash, block_hash, key, value, value_as_json, start_time, end_time, tezedge_time, .. } => {
            assert!(value.is_empty());
            assert!(value_as_json.is_none());
            assert_eq!(context_hash, &Some(vec![1]));
            assert_eq!(block_hash, &Some(vec![2]));
            assert_eq!(key, &vec!["a".to_string()]);
            assert_eq!((*start_time, *end_time, *tezedge_time), (11, 12, 13));
        }
        _ => panic!("expected a set operation"),
    }
    assert!(matches!(&out[1], ContextAction::Commit { new_context_hash, .. } if *new_context_hash == vec![3u8]));
    assert!(matches!(&out[2], ContextAction::Get { key, .. } if *key == vec!["b".to_string()]));
}

#[test]
fn remove_values_of_empty() {
    assert!(remove_values(Vec::new()).is_empty());
}

#[test]
fn record_actions_counts_a_block() {
    let mut stats = StorageStats::new();
    let actions = vec![get(&["data", "x"]), ContextAction::Shutdown, commit(), get(&["y"])];
    assert!(can_record_actions(&stats, &actions));
    let keys = record_actions(&mut stats, &actions);
    assert_eq!(keys.len(), 4);
    assert!(matches!(&keys[0], Some(k) if k.action_name == "GET" && k.action_type.as_deref() == Some("x")));
    assert!(keys[1].is_none());
    assert!(matches!(&keys[2], Some(k) if k.action_name == "COMMIT" && k.action_type.is_none()));
    assert_eq!(
        snapshot(&stats),
        vec![
            ("COMMIT".to_string(), 1, vec![]),
            ("GET".to_string(), 2, vec![("x".to_string(), 1), ("y".to_string(), 1)]),
        ]
    );
}

#[test]
fn record_actions_of_a_run_in_any_order() {
    let block = vec![get(&["a"]), set(&["data", "b"], vec![1]), commit(), get(&["a"]), get(&["c"])];
    let shuffled = vec![commit(), get(&["a"]), get(&["c"]), get(&["a"]), set(&["data", "b"], vec![1])];
    let mut s1 = StorageStats::new();
    record_actions(&mut s1, &block);
    let mut s2 = StorageStats::new();
    record_actions(&mut s2, &shuffled);
    assert_eq!(snapshot(&s1), snapshot(&s2));
}

#[test]
fn type_counts_sum_within_kind_count() {
    let mut stats = StorageStats::new();
    record_actions(&mut stats, &vec![get(&["a"]), get(&[]), get(&["b"]), get(&["a"]), commit()]);
    for (_, total, types) in snapshot(&stats) {
        let sum: u32 = types.iter().map(|(_, c)| *c).sum();
        assert!(sum <= total);
    }
    assert_eq!(
        snapshot(&stats),
        vec![
            ("COMMIT".to_string(), 1, vec![]),
            ("GET".to_string(), 4, vec![("a".to_string(), 2), ("b".to_string(), 1)]),
        ]
    );
}

#[test]
fn recording_blocks_in_either_order_or_joined() {
    let b1 = || vec![get(&["a"]), commit(), get(&["data", "x"])];
    let b2 = || vec![set(&["a"], vec![1]), get(&["a"])];
    let mut first = StorageStats::new();
    record_actions(&mut first, &b1());
    record_actions(&mut first, &b2());
    let mut second = StorageStats::new();
    record_actions(&mut second, &b2());
    record_actions(&mut second, &b1());
    let mut joined = StorageStats::new();
    let mut all = b1();
    all.extend(b2());
    record_actions(&mut joined, &all);
    assert_eq!(snapshot(&first), snapshot(&second));
    assert_eq!(snapshot(&first), snapshot(&joined));
    assert_eq!(
        snapshot(&joined),
        vec![
            ("COMMIT".to_string(), 1, vec![]),
            ("GET".to_string(), 3, vec![("a".to_string(), 2), ("x".to_string(), 1)]),
            ("SET".to_string(), 1, vec![("a".to_string(), 1)]),
        ]
    );
}

#[test]
fn fat_tail_id_round_trip() {
    assert_eq!(fat_tail_id(0, 0), 0);
    assert_eq!(fat_tail_id(1, 2), 0x1_0000_0002);
    assert_eq!(fat_tail_id(u32::MAX, u32::MAX), u64::MAX);
    assert_eq!(fat_tail_position(0x1_0000_0002), (1, 2));
    for (b, a) in [(0u32, 7u32), (3, 0), (123_456, 654_321), (u32::MAX, 1)] {
        assert_eq!(fat_tail_position(fat_tail_id(b, a)), (b, a));
    }
}
