use std::path::PathBuf;

use srt::task::{
    ComposeTask, CoreShardCheckpointTask, RecursionCpuTask, RecursionGpuTask, ShardTask,
    ShardTaskType, SpecialCheckpointTask, Task, TaskType, WithInputBlob,
};

fn paths(texts: &[&str]) -> Vec<PathBuf> {
    texts.iter().map(PathBuf::from).collect()
}

#[test]
fn checkpoint_paths() {
    let core = CoreShardCheckpointTask {
        root_id: "root".to_string(),
        block_id: "77".to_string(),
        shard_id: 3,
        program_path: "p".to_string(),
        cached_program_path: "c".to_string(),
    };
    assert_eq!(core.get_input_paths(), paths(&["/mnt/shared_ramdisk/srt/root/checkpoint/77"]));
    let special = SpecialCheckpointTask {
        root_id: "root".to_string(),
        block_id: "78".to_string(),
        program_path: "p".to_string(),
        cached_program_path: "c".to_string(),
    };
    assert_eq!(special.get_input_paths(), paths(&["/mnt/shared_ramdisk/srt/root/checkpoint/78"]));
    assert_eq!(special.get_output_prefix(), PathBuf::from("/mnt/local_ramdisk/srt/root/shard/"));
    let task = Task::SpecialCheckpoint(special.clone());
    assert_eq!(task.get_input_paths(), special.get_input_paths());
    assert_eq!(task.as_special_checkpoint(), Some(&special));
    assert!(task.as_core_shard_checkpoint().is_none());
    assert_eq!(Task::CoreShardCheckpoint(core.clone()).as_core_shard_checkpoint(), Some(&core));
}

#[test]
fn shard_paths_by_type() {
    let mut shard = ShardTask {
        root_id: "r1".to_string(),
        shard_id: 120,
        program_path: "p".to_string(),
        task_type: ShardTaskType::Core,
    };
    assert_eq!(shard.get_input_paths(), paths(&["/mnt/hugetlbfs/srt/r1/shard/120"]));
    shard.task_type = ShardTaskType::Precompile;
    assert_eq!(
        shard.get_input_paths(),
        paths(&[
            "/mnt/hugetlbfs/srt/r1/shard/120",
            "/mnt/local_ramdisk/srt/r1/shard/shard_ends",
            "/mnt/local_ramdisk/srt/r1/shard/instr_count",
        ])
    );
    shard.task_type = ShardTaskType::GlobalMemory;
    shard.shard_id = 0;
    assert_eq!(
        shard.get_input_paths(),
        paths(&[
            "/mnt/hugetlbfs/srt/r1/shard/0-0",
            "/mnt/hugetlbfs/srt/r1/shard/0-1",
            "/mnt/local_ramdisk/srt/r1/shard/shard_ends",
            "/mnt/local_ramdisk/srt/r1/shard/instr_count",
        ])
    );
    let task = Task::Shard(shard.clone());
    assert_eq!(task.get_input_paths(), shard.get_input_paths());
    assert_eq!(task.as_shard(), Some(&shard));
}

#[test]
fn recursion_paths() {
    let compose = ComposeTask { root_id: "x".to_string(), height: 3, index: 4 };
    assert_eq!(compose.get_input_paths(), paths(&["/mnt/shared_ramdisk/srt/x/compose/3-4"]));
    let leaf = RecursionCpuTask { root_id: "x".to_string(), height: 0, index: 9, total_shards: None };
    assert_eq!(
        leaf.get_input_paths(),
        paths(&[
            "/mnt/shared_ramdisk/srt/x/recursion_cpu/0-9",
            "/mnt/shared_ramdisk/srt/program/eth-block-vk.bin",
        ])
    );
    let inner =
        RecursionCpuTask { root_id: "x".to_string(), height: 12, index: 4000000000, total_shards: Some(7) };
    assert_eq!(
        inner.get_input_paths(),
        paths(&[
            "/mnt/shared_ramdisk/srt/x/recursion_cpu/12-4000000000-0",
            "/mnt/shared_ramdisk/srt/x/recursion_cpu/12-4000000000-1",
        ])
    );
    let gpu = RecursionGpuTask { root_id: "x".to_string(), height: 1, index: 10, total_shards: None };
    assert_eq!(gpu.get_input_paths(), paths(&["/mnt/local_ramdisk/srt/x/recursion_gpu/1-10"]));
    let task = Task::RecursionGpu(gpu.clone());
    assert_eq!(task.get_input_paths(), gpu.get_input_paths());
    assert_eq!(task.as_recursion_gpu(), Some(&gpu));
    assert!(task.as_recursion_cpu().is_none());
    assert_eq!(Task::Compose(compose.clone()).as_compose(), Some(&compose));
    assert_eq!(Task::RecursionCpu(inner.clone()).as_recursion_cpu(), Some(&inner));
}

#[test]
fn task_type_names() {
    assert_eq!(TaskType::CoreShardCheckpoint.to_string(), "core_shard_checkpoint");
    assert_eq!(TaskType::SpecialCheckpoint.to_string(), "special_checkpoint");
    assert_eq!(TaskType::Shard.to_string(), "shard");
    assert_eq!(TaskType::Compose.to_string(), "compose");
    assert_eq!(TaskType::RecursionCpu.to_string(), "recursion_cpu");
    assert_eq!(TaskType::RecursionGpu.to_string(), "recursion_gpu");
}
