use srt::compose::{
    calculate_total_levels, get_equivalent_compose_task, get_next_level_recursion_task,
    get_paired_compose_task, is_complete, order_compose_tasks,
};
use srt::task::ComposeTask;

#[test]
fn test_get_paired_compose_task_even() {
    let task = ComposeTask { root_id: "test".to_string(), height: 4, index: 6 };
    let paired_task = get_paired_compose_task(&task);
    assert_eq!(paired_task.root_id, task.root_id);
    assert_eq!(paired_task.height, task.height);
    assert_eq!(paired_task.index, task.index + 1);
}

#[test]
fn test_get_paired_compose_task_odd() {
    let task = ComposeTask { root_id: "test".to_string(), height: 4, index: 7 };
    let paired_task = get_paired_compose_task(&task);
    assert_eq!(paired_task.root_id, task.root_id);
    assert_eq!(paired_task.height, task.height);
    assert_eq!(paired_task.index, task.index - 1);
}

#[test]
fn test_get_next_level_recursion_task_odd() {
    let task = ComposeTask { root_id: "test".to_string(), height: 3, index: 3 };
    let next_task = get_next_level_recursion_task(&task, None);
    assert_eq!(next_task.as_recursion_cpu().unwrap().root_id, task.root_id);
    assert_eq!(next_task.as_recursion_cpu().unwrap().height, 4);
    assert_eq!(next_task.as_recursion_cpu().unwrap().index, 1);
    assert_eq!(next_task.as_recursion_cpu().unwrap().total_shards, None);
}

#[test]
fn test_get_next_level_recursion_task_even() {
    let task = ComposeTask { root_id: "test".to_string(), height: 3, index: 4 };
    let next_task = get_next_level_recursion_task(&task, None);
    assert_eq!(next_task.as_recursion_cpu().unwrap().root_id, task.root_id);
    assert_eq!(next_task.as_recursion_cpu().unwrap().height, 4);
    assert_eq!(next_task.as_recursion_cpu().unwrap().index, 2);
    assert_eq!(next_task.as_recursion_cpu().unwrap().total_shards, None);
}

#[test]
fn test_get_equivalent_compose_task_is_new() {
    let total_shards = 5;
    let task = ComposeTask { root_id: "test".to_string(), height: 0, index: 4 };

    let new_task = get_equivalent_compose_task(&task, total_shards);
    assert!(new_task.is_some());
    let new_task = new_task.unwrap();
    assert_eq!(new_task.root_id, task.root_id);
    assert_eq!(new_task.height, 2);
    assert_eq!(new_task.index, 1);
}

#[test]
fn test_get_equivalent_compose_task_is_not_new() {
    let total_shards = 4;
    let task = ComposeTask { root_id: "test".to_string(), height: 0, index: 3 };

    let new_task = get_equivalent_compose_task(&task, total_shards);
    assert!(new_task.is_none());
}

#[test]
fn test_order_compose_tasks() {
    let task1 = ComposeTask { root_id: "test".to_string(), height: 1, index: 1 };
    let task2 = ComposeTask { root_id: "test".to_string(), height: 1, index: 0 };
    let task3 = ComposeTask { root_id: "test".to_string(), height: 2, index: 0 };

    let tasks = vec![task1.clone(), task2.clone(), task3.clone()];
    let ordered = order_compose_tasks(tasks);

    // Higher height comes first
    assert_eq!(ordered[0], task3);
    // Same height, lower index comes first
    assert_eq!(ordered[1], task2);
    assert_eq!(ordered[2], task1);
}

fn compose(height: u32, index: u32) -> ComposeTask {
    ComposeTask { root_id: "r".to_string(), height, index }
}

#[test]
fn total_levels_values() {
    assert_eq!(calculate_total_levels(0), 1);
    assert_eq!(calculate_total_levels(1), 1);
    assert_eq!(calculate_total_levels(2), 2);
    assert_eq!(calculate_total_levels(3), 3);
    assert_eq!(calculate_total_levels(4), 3);
    assert_eq!(calculate_total_levels(5), 4);
    assert_eq!(calculate_total_levels(8), 4);
    assert_eq!(calculate_total_levels(9), 5);
    assert_eq!(calculate_total_levels(1 << 31), 32);
    assert_eq!(calculate_total_levels((1 << 31) + 1), 33);
    assert_eq!(calculate_total_levels(u32::MAX), 33);
}

#[test]
fn complete_only_at_root() {
    // Five shards: levels 5, 3, 2, 1 nodes; the root sits at height 3.
    assert!(is_complete(&compose(3, 0), 5));
    assert!(!is_complete(&compose(2, 0), 5));
    assert!(!is_complete(&compose(4, 0), 5));
    assert!(is_complete(&compose(0, 0), 1));
    assert!(is_complete(&compose(0, 0), 0));
    assert!(!is_complete(&compose(u32::MAX, 0), 5));
}

#[test]
fn pairing_is_an_involution() {
    for index in [0u32, 1, 6, 7, u32::MAX - 1, u32::MAX] {
        let task = compose(2, index);
        let paired = get_paired_compose_task(&task);
        assert_ne!(paired.index, task.index);
        assert_eq!(paired.index / 2, task.index / 2);
        assert_eq!(get_paired_compose_task(&paired), task);
    }
}

#[test]
fn pair_feeds_the_same_next_level_task() {
    let task = compose(3, 10);
    let paired = get_paired_compose_task(&task);
    assert_eq!(
        get_next_level_recursion_task(&task, Some(40)),
        get_next_level_recursion_task(&paired, Some(40))
    );
    let next = get_next_level_recursion_task(&task, Some(40));
    assert_eq!(next.as_recursion_cpu().unwrap().total_shards, Some(40));
    assert!(next.as_compose().is_none());
}

#[test]
fn equivalent_carried_over_several_levels() {
    // Eleven shards: levels 11, 6, 3, 2, 1 nodes. The last leaf is unpaired
    // at height 0, paired at height 1 (6 nodes) as index 5.
    let found = get_equivalent_compose_task(&compose(0, 10), 11).unwrap();
    assert_eq!((found.height, found.index), (1, 5));
    // Thirteen shards: 13, 7, 4: the last leaf is carried up to height 2.
    let found = get_equivalent_compose_task(&compose(0, 12), 13).unwrap();
    assert_eq!((found.height, found.index), (2, 3));
    assert!(!is_complete(&found, 13));
    // At height 1 of thirteen shards (7 nodes) the last node goes to height 2.
    let found = get_equivalent_compose_task(&compose(1, 6), 13).unwrap();
    assert_eq!((found.height, found.index), (2, 3));
    // A node that is not the last one has a sibling.
    assert!(get_equivalent_compose_task(&compose(0, 3), 13).is_none());
    // Nothing is unpaired without shards.
    assert!(get_equivalent_compose_task(&compose(0, 0), 0).is_none());
}

#[test]
fn order_keeps_all_tasks_in_processing_order() {
    let tasks = vec![compose(0, 3), compose(2, 1), compose(0, 1), compose(2, 0), compose(1, 5)];
    let ordered = order_compose_tasks(tasks.clone());
    let keys: Vec<(u32, u32)> = ordered.iter().map(|t| (t.height, t.index)).collect();
    assert_eq!(keys, vec![(2, 0), (2, 1), (1, 5), (0, 1), (0, 3)]);
    assert!(order_compose_tasks(Vec::new()).is_empty());
    assert_eq!(order_compose_tasks(ordered.clone()), ordered);
}

#[test]
fn equivalent_of_a_single_node_level_is_none() {
    // One shard: the only leaf is the root.
    let root = ComposeTask { root_id: "test".to_string(), height: 0, index: 0 };
    assert!(get_equivalent_compose_task(&root, 1).is_none());
    // Five shards: levels 5, 3, 2, 1; the root at height 3.
    assert!(get_equivalent_compose_task(&compose(3, 0), 5).is_none());
}

#[test]
fn equivalent_agrees_along_the_path() {
    // Twenty-one shards: levels 21, 11, 6, 3, 2, 1.
    let found = get_equivalent_compose_task(&compose(0, 20), 21).unwrap();
    assert_eq!((found.height, found.index), (2, 5));
    let again = get_equivalent_compose_task(&compose(1, 10), 21).unwrap();
    assert_eq!(again, found);
    assert!(get_equivalent_compose_task(&found, 21).is_none());
    // From height 3 (3 nodes) the last node is paired at height 4.
    let upper = get_equivalent_compose_task(&compose(3, 2), 21).unwrap();
    assert_eq!((upper.height, upper.index), (4, 1));
    assert!(get_equivalent_compose_task(&upper, 21).is_none());
}
