use vstd::prelude::*;

verus! {

/// Shared ramdisk directory for task blobs.
pub const SHARED_RAMDISK_PATH: &'static str = "/mnt/shared_ramdisk/srt";

/// Local ramdisk directory, used for small files.
pub const LOCAL_RAMDISK_PATH: &'static str = "/mnt/local_ramdisk/srt";

/// Local huge-page directory, used for large files.
pub const LOCAL_HUGE_TLB_PATH: &'static str = "/mnt/hugetlbfs/srt";

pub const TASK_FIELD_KEY: &'static str = "task";

pub const SRT_GROUP_NAME: &'static str = "srt";

pub const DEFAULT_STREAM_BLOCK_MS: u64 = 3000;

/// Default time-to-live of Redis keys, in seconds (six hours).
pub const DEFAULT_REDIS_TTL_SECS: u64 = 21600;

pub const DEFAULT_REDIS_HOST: &'static str = "localhost";

pub const DEFAULT_REDIS_PORT: u16 = 6379;

/// Location of the block program.
pub const ETH_BLOCK_PROGRAM_PATH: &'static str = "/mnt/shared_ramdisk/srt/program/eth-block";

} // verus!
