use vstd::prelude::*;
use std::path::PathBuf;

use crate::constants::{LOCAL_HUGE_TLB_PATH, LOCAL_RAMDISK_PATH, SHARED_RAMDISK_PATH};
use crate::text::{decimal, push_decimal};

verus! {

/// - Producer: external service like a Reth node
/// - Consumer: core shard checkpointer
#[derive(Debug, Clone, PartialEq, Eq)]
pub struct CoreShardCheckpointTask {
    /// Unique identifier to track and organize related tasks
    pub root_id: String,
    /// ID of the block being checkpointed
    pub block_id: String,
    /// ID of the shard being checkpointed
    pub shard_id: u32,
    /// Path to the program being executed
    pub program_path: String,
    /// Path to the cached program
    pub cached_program_path: String,
}

/// - Producer: external service like a Reth node
/// - Consumer: special checkpointer
#[derive(Debug, Clone, PartialEq, Eq)]
pub struct SpecialCheckpointTask {
    /// Unique identifier to track and organize related tasks
    pub root_id: String,
    /// ID of the block being checkpointed
    pub block_id: String,
    /// Path to the program being executed
    pub program_path: String,
    /// Path to the cached program
    pub cached_program_path: String,
}

/// Kind of a shard task; each kind reads a different set of input files.
#[derive(Debug, Clone, Copy, PartialEq, Eq, Structural)]
pub enum ShardTaskType {
    Core,
    Precompile,
    GlobalMemory,
}

/// - Producer: master checkpointer
/// - Consumer: shard prover
#[derive(Debug, Clone, PartialEq, Eq)]
pub struct ShardTask {
    /// Unique identifier to track and organize related tasks
    pub root_id: String,
    /// ID of the current shard being processed
    pub shard_id: u32,
    /// Path to the program being executed
    pub program_path: String,
    /// Type of the shard task
    pub task_type: ShardTaskType,
}

/// - Producer: recursion GPU prover
/// - Consumer: recursion composer
#[derive(Debug, Clone, PartialEq, Eq)]
pub struct ComposeTask {
    /// Unique identifier to track and organize related tasks
    pub root_id: String,
    /// Height in the recursion tree
    pub height: u32,
    /// Index within the current height level
    pub index: u32,
}

/// - Producer: recursion composer
/// - Consumer: recursion CPU prover
#[derive(Debug, Clone, PartialEq, Eq)]
pub struct RecursionCpuTask {
    /// Unique identifier to track and organize related tasks
    pub root_id: String,
    /// Height in the recursion tree
    pub height: u32,
    /// Index within the current height level
    pub index: u32,
    /// Total number of shards
    pub total_shards: Option<u32>,
}

/// - Producer: recursion CPU prover
/// - Consumer: recursion GPU prover
#[derive(Debug, Clone, PartialEq, Eq)]
pub struct RecursionGpuTask {
    /// Unique identifier to track and organize related tasks
    pub root_id: String,
    /// Height in the recursion tree
    pub height: u32,
    /// Index within the current height level
    pub index: u32,
    /// Total number of shards
    pub total_shards: Option<u32>,
}

/// All task kinds of the proving pipeline.
#[derive(Debug, Clone, PartialEq, Eq)]
pub enum Task {
    CoreShardCheckpoint(CoreShardCheckpointTask),
    SpecialCheckpoint(SpecialCheckpointTask),
    Shard(ShardTask),
    Compose(ComposeTask),
    RecursionCpu(RecursionCpuTask),
    RecursionGpu(RecursionGpuTask),
}


// ---------------------------------------------------------------------------
// Paths
// ---------------------------------------------------------------------------

#[verifier::external_type_specification]
#[verifier::external_body]
pub struct ExPathBuf(PathBuf);

/// Name for the path that `PathBuf::from` builds from a string with the given
/// characters.
pub uninterp spec fn path_from_text(text: Seq<char>) -> PathBuf;

/// Trusted: `std::path::PathBuf::from(String)` wraps the string's buffer as a
/// path; the result is a function of the string's characters alone.
#[verifier::external_body]
fn to_path(text: String) -> (path: PathBuf)
    ensures
        path == path_from_text(text@),
{
    PathBuf::from(text)
}

/// The paths built from the given texts, in order.
pub open spec fn paths_from_texts(texts: Seq<Seq<char>>) -> Seq<PathBuf> {
    texts.map_values(|text: Seq<char>| path_from_text(text))
}

/// `<base>/<root_id><suffix>`
pub open spec fn root_dir_text(base: Seq<char>, root_id: Seq<char>, suffix: Seq<char>) -> Seq<
    char,
> {
    base + "/"@ + root_id + suffix
}

/// `<height>-<index>`
pub open spec fn position_text(height: u32, index: u32) -> Seq<char> {
    decimal(height as nat) + "-"@ + decimal(index as nat)
}

fn root_dir(base: &str, root_id: &String, suffix: &str) -> (text: String)
    ensures
        text@ == root_dir_text(base@, root_id@, suffix@),
{
    let mut text = String::from_str(base);
    text.append("/");
    text.append(root_id.as_str());
    text.append(suffix);
    text
}

fn push_position(text: &mut String, height: u32, index: u32)
    ensures
        final(text)@ == old(text)@ + position_text(height, index),
{
    push_decimal(text, height);
    text.append("-");
    push_decimal(text, index);
    assert(final(text)@ =~= old(text)@ + position_text(height, index));
}

fn single_path(text: String) -> (paths: Vec<PathBuf>)
    ensures
        paths@ == paths_from_texts(seq![text@]),
{
    let mut paths = Vec::new();
    paths.push(to_path(text));
    assert(paths@ =~= paths_from_texts(seq![text@]));
    paths
}

/// Common trait for all tasks that handle input blob data.
pub trait WithInputBlob {
    /// Text of each path where the task's input blob data is stored.
    spec fn input_path_texts(&self) -> Seq<Seq<char>>;

    /// Gets the paths where input blob data should be stored/retrieved.
    fn get_input_paths(&self) -> (paths: Vec<PathBuf>)
        ensures
            paths@ == paths_from_texts(self.input_path_texts()),
    ;
}

/// `<shared ramdisk>/<root_id>/checkpoint/<block_id>`
pub open spec fn checkpoint_text(root_id: Seq<char>, block_id: Seq<char>) -> Seq<char> {
    root_dir_text(SHARED_RAMDISK_PATH@, root_id, "/checkpoint/"@) + block_id
}

fn checkpoint_path(root_id: &String, block_id: &String) -> (paths: Vec<PathBuf>)
    ensures
        paths@ == paths_from_texts(seq![checkpoint_text(root_id@, block_id@)]),
{
    let mut text = root_dir(SHARED_RAMDISK_PATH, root_id, "/checkpoint/");
    text.append(block_id.as_str());
    single_path(text)
}

impl WithInputBlob for CoreShardCheckpointTask {
    open spec fn input_path_texts(&self) -> Seq<Seq<char>> {
        seq![checkpoint_text(self.root_id@, self.block_id@)]
    }

    fn get_input_paths(&self) -> (paths: Vec<PathBuf>) {
        checkpoint_path(&self.root_id, &self.block_id)
    }
}

impl WithInputBlob for SpecialCheckpointTask {
    open spec fn input_path_texts(&self) -> Seq<Seq<char>> {
        seq![checkpoint_text(self.root_id@, self.block_id@)]
    }

    fn get_input_paths(&self) -> (paths: Vec<PathBuf>) {
        checkpoint_path(&self.root_id, &self.block_id)
    }
}

impl SpecialCheckpointTask {
    /// Directory under which the checkpointer writes its shards:
    /// `<local ramdisk>/<root_id>/shard/`.
    pub fn get_output_prefix(&self) -> (prefix: PathBuf)
        ensures
            prefix == path_from_text(root_dir_text(LOCAL_RAMDISK_PATH@, self.root_id@, "/shard/"@)),
            prefix == path_from_text(LOCAL_RAMDISK_PATH@ + "/"@ + self.root_id@ + "/shard/"@),
    {
        to_path(root_dir(LOCAL_RAMDISK_PATH, &self.root_id, "/shard/"))
    }
}

/// `<local huge tlb>/<root_id>/shard/<shard_id><suffix>`: a shard file.
pub open spec fn shard_file_text(root_id: Seq<char>, shard_id: u32, suffix: Seq<char>) -> Seq<
    char,
> {
    root_dir_text(LOCAL_HUGE_TLB_PATH@, root_id, "/shard"@) + "/"@ + decimal(shard_id as nat)
        + suffix
}

/// `<local ramdisk>/<root_id>/shard/<name>`: a file shared by the shards.
pub open spec fn shard_side_text(root_id: Seq<char>, name: Seq<char>) -> Seq<char> {
    root_dir_text(LOCAL_RAMDISK_PATH@, root_id, "/shard"@) + "/"@ + name
}

fn shard_file(root_id: &String, shard_id: u32, suffix: &str) -> (text: String)
    ensures
        text@ == shard_file_text(root_id@, shard_id, suffix@),
{
    let mut text = root_dir(LOCAL_HUGE_TLB_PATH, root_id, "/shard");
    text.append("/");
    push_decimal(&mut text, shard_id);
    text.append(suffix);
    text
}

fn shard_side(root_id: &String, name: &str) -> (text: String)
    ensures
        text@ == shard_side_text(root_id@, name@),
{
    let mut text = root_dir(LOCAL_RAMDISK_PATH, root_id, "/shard");
    text.append("/");
    text.append(name);
    text
}

impl WithInputBlob for ShardTask {
    /// A core shard reads the shard itself; a precompile shard also reads the
    /// shard ends and the instruction count; a global memory shard reads two
    /// halves of the shard (`-0`, `-1`), the shard ends and the instruction
    /// count.
    open spec fn input_path_texts(&self) -> Seq<Seq<char>> {
        let shard_ends = shard_side_text(self.root_id@, "shard_ends"@);
        let instr_count = shard_side_text(self.root_id@, "instr_count"@);
        match self.task_type {
            ShardTaskType::Core => seq![shard_file_text(self.root_id@, self.shard_id, ""@)],
            ShardTaskType::GlobalMemory => seq![
                shard_file_text(self.root_id@, self.shard_id, "-0"@),
                shard_file_text(self.root_id@, self.shard_id, "-1"@),
                shard_ends,
                instr_count,
            ],
            ShardTaskType::Precompile => seq![
                shard_file_text(self.root_id@, self.shard_id, ""@),
                shard_ends,
                instr_count,
            ],
        }
    }

    fn get_input_paths(&self) -> (paths: Vec<PathBuf>) {
        let mut paths = Vec::new();
        match self.task_type {
            ShardTaskType::Core => {
                paths.push(to_path(shard_file(&self.root_id, self.shard_id, "")));
            },
            ShardTaskType::GlobalMemory => {
                paths.push(to_path(shard_file(&self.root_id, self.shard_id, "-0")));
                paths.push(to_path(shard_file(&self.root_id, self.shard_id, "-1")));
                paths.push(to_path(shard_side(&self.root_id, "shard_ends")));
                paths.push(to_path(shard_side(&self.root_id, "instr_count")));
            },
            ShardTaskType::Precompile => {
                paths.push(to_path(shard_file(&self.root_id, self.shard_id, "")));
                paths.push(to_path(shard_side(&self.root_id, "shard_ends")));
                paths.push(to_path(shard_side(&self.root_id, "instr_count")));
            },
        }
        assert(paths@ =~= paths_from_texts(self.input_path_texts()));
        paths
    }
}

impl WithInputBlob for ComposeTask {
    /// `<shared ramdisk>/<root_id>/compose/<height>-<index>`
    open spec fn input_path_texts(&self) -> Seq<Seq<char>> {
        seq![
            root_dir_text(SHARED_RAMDISK_PATH@, self.root_id@, "/compose/"@) + position_text(
                self.height,
                self.index,
            ),
        ]
    }

    fn get_input_paths(&self) -> (paths: Vec<PathBuf>) {
        let mut text = root_dir(SHARED_RAMDISK_PATH, &self.root_id, "/compose/");
        push_position(&mut text, self.height, self.index);
        single_path(text)
    }
}

/// `<shared ramdisk>/<root_id>/recursion_cpu/<height>-<index><suffix>`
pub open spec fn recursion_cpu_text(
    root_id: Seq<char>,
    height: u32,
    index: u32,
    suffix: Seq<char>,
) -> Seq<char> {
    root_dir_text(SHARED_RAMDISK_PATH@, root_id, "/recursion_cpu/"@) + position_text(height, index)
        + suffix
}

fn recursion_cpu_file(root_id: &String, height: u32, index: u32, suffix: &str) -> (text: String)
    ensures
        text@ == recursion_cpu_text(root_id@, height, index, suffix@),
{
    let mut text = root_dir(SHARED_RAMDISK_PATH, root_id, "/recursion_cpu/");
    push_position(&mut text, height, index);
    text.append(suffix);
    text
}

impl WithInputBlob for RecursionCpuTask {
    /// At height 0 (1-to-1 recursion) the task reads its own input and the
    /// verifying key `<shared ramdisk>/program/eth-block-vk.bin`; above
    /// (2-to-1 recursion) it reads the two inputs `-0` and `-1`.
    open spec fn input_path_texts(&self) -> Seq<Seq<char>> {
        if self.height == 0 {
            seq![
                recursion_cpu_text(self.root_id@, self.height, self.index, ""@),
                SHARED_RAMDISK_PATH@ + "/program/eth-block-vk.bin"@,
            ]
        } else {
            seq![
                recursion_cpu_text(self.root_id@, self.height, self.index, "-0"@),
                recursion_cpu_text(self.root_id@, self.height, self.index, "-1"@),
            ]
        }
    }

    fn get_input_paths(&self) -> (paths: Vec<PathBuf>) {
        let mut paths = Vec::new();
        if self.height == 0 {
            paths.push(to_path(recursion_cpu_file(&self.root_id, self.height, self.index, "")));
            let mut key = String::from_str(SHARED_RAMDISK_PATH);
            key.append("/program/eth-block-vk.bin");
            paths.push(to_path(key));
        } else {
            paths.push(to_path(recursion_cpu_file(&self.root_id, self.height, self.index, "-0")));
            paths.push(to_path(recursion_cpu_file(&self.root_id, self.height, self.index, "-1")));
        }
        assert(paths@ =~= paths_from_texts(self.input_path_texts()));
        paths
    }
}

impl WithInputBlob for RecursionGpuTask {
    /// `<local ramdisk>/<root_id>/recursion_gpu/<height>-<index>`
    open spec fn input_path_texts(&self) -> Seq<Seq<char>> {
        seq![
            root_dir_text(LOCAL_RAMDISK_PATH@, self.root_id@, "/recursion_gpu/"@) + position_text(
                self.height,
                self.index,
            ),
        ]
    }

    fn get_input_paths(&self) -> (paths: Vec<PathBuf>) {
        let mut text = root_dir(LOCAL_RAMDISK_PATH, &self.root_id, "/recursion_gpu/");
        push_position(&mut text, self.height, self.index);
        single_path(text)
    }
}

impl Task {
    /// Text of each input path of the task.
    pub open spec fn input_path_texts(&self) -> Seq<Seq<char>> {
        match self {
            Task::CoreShardCheckpoint(task) => task.input_path_texts(),
            Task::SpecialCheckpoint(task) => task.input_path_texts(),
            Task::Shard(task) => task.input_path_texts(),
            Task::Compose(task) => task.input_path_texts(),
            Task::RecursionCpu(task) => task.input_path_texts(),
            Task::RecursionGpu(task) => task.input_path_texts(),
        }
    }

    /// Gets the paths of the task's input data.
    pub fn get_input_paths(&self) -> (paths: Vec<PathBuf>)
        ensures
            paths@ == paths_from_texts(self.input_path_texts()),
    {
        match self {
            Task::CoreShardCheckpoint(task) => task.get_input_paths(),
            Task::SpecialCheckpoint(task) => task.get_input_paths(),
            Task::Shard(task) => task.get_input_paths(),
            Task::Compose(task) => task.get_input_paths(),
            Task::RecursionCpu(task) => task.get_input_paths(),
            Task::RecursionGpu(task) => task.get_input_paths(),
        }
    }

    /// The core shard checkpoint task, if this is a `CoreShardCheckpoint` task.
    pub fn as_core_shard_checkpoint(&self) -> (inner: Option<&CoreShardCheckpointTask>)
        ensures
            inner == (match self {
                Task::CoreShardCheckpoint(task) => Some(task),
                _ => None,
            }),
    {
        match self {
            Task::CoreShardCheckpoint(task) => Some(task),
            _ => None,
        }
    }

    /// The special checkpoint task, if this is a `SpecialCheckpoint` task.
    pub fn as_special_checkpoint(&self) -> (inner: Option<&SpecialCheckpointTask>)
        ensures
            inner == (match self {
                Task::SpecialCheckpoint(task) => Some(task),
                _ => None,
            }),
    {
        match self {
            Task::SpecialCheckpoint(task) => Some(task),
            _ => None,
        }
    }

    /// The shard task, if this is a `Shard` task.
    pub fn as_shard(&self) -> (inner: Option<&ShardTask>)
        ensures
            inner == (match self {
                Task::Shard(task) => Some(task),
                _ => None,
            }),
    {
        match self {
            Task::Shard(task) => Some(task),
            _ => None,
        }
    }

    /// The compose task, if this is a `Compose` task.
    pub fn as_compose(&self) -> (inner: Option<&ComposeTask>)
        ensures
            inner == (match self {
                Task::Compose(task) => Some(task),
                _ => None,
            }),
    {
        match self {
            Task::Compose(task) => Some(task),
            _ => None,
        }
    }

    /// The recursion CPU task, if this is a `RecursionCpu` task.
    pub fn as_recursion_cpu(&self) -> (inner: Option<&RecursionCpuTask>)
        ensures
            inner == (match self {
                Task::RecursionCpu(task) => Some(task),
                _ => None,
            }),
    {
        match self {
            Task::RecursionCpu(task) => Some(task),
            _ => None,
        }
    }

    /// The recursion GPU task, if this is a `RecursionGpu` task.
    pub fn as_recursion_gpu(&self) -> (inner: Option<&RecursionGpuTask>)
        ensures
            inner == (match self {
                Task::RecursionGpu(task) => Some(task),
                _ => None,
            }),
    {
        match self {
            Task::RecursionGpu(task) => Some(task),
            _ => None,
        }
    }
}

/// Kinds of tasks, as named in the task streams.
#[derive(Debug, Clone, Copy, PartialEq, Eq, Structural)]
pub enum TaskType {
    CoreShardCheckpoint,
    SpecialCheckpoint,
    Shard,
    Compose,
    RecursionCpu,
    RecursionGpu,
}

impl TaskType {
    /// The stream name of the task kind.
    pub open spec fn name(self) -> Seq<char> {
        match self {
            TaskType::CoreShardCheckpoint => "core_shard_checkpoint"@,
            TaskType::SpecialCheckpoint => "special_checkpoint"@,
            TaskType::Shard => "shard"@,
            TaskType::Compose => "compose"@,
            TaskType::RecursionCpu => "recursion_cpu"@,
            TaskType::RecursionGpu => "recursion_gpu"@,
        }
    }

    /// The stream name of the task kind, as text.
    pub fn to_string(&self) -> (text: String)
        ensures
            text@ == self.name(),
    {
        match self {
            TaskType::CoreShardCheckpoint => String::from_str("core_shard_checkpoint"),
            TaskType::SpecialCheckpoint => String::from_str("special_checkpoint"),
            TaskType::Shard => String::from_str("shard"),
            TaskType::Compose => String::from_str("compose"),
            TaskType::RecursionCpu => String::from_str("recursion_cpu"),
            TaskType::RecursionGpu => String::from_str("recursion_gpu"),
        }
    }
}

/// Law: distinct task kinds have distinct names, so a name identifies its
/// kind.
pub proof fn law_task_type_names_distinct(a: TaskType, b: TaskType)
    ensures
        a.name() == b.name() ==> a == b,
{
    reveal_strlit("core_shard_checkpoint");
    reveal_strlit("special_checkpoint");
    reveal_strlit("shard");
    reveal_strlit("compose");
    reveal_strlit("recursion_cpu");
    reveal_strlit("recursion_gpu");
    if a.name() == b.name() && a != b {
        assert(a.name().len() == b.name().len());
        assert(a.name()[10] == b.name()[10]);
    }
}

// ---------------------------------------------------------------------------
// The input paths of each task kind, spelled out
// ---------------------------------------------------------------------------

/// Law: both checkpoint tasks read the single file
/// `<shared ramdisk>/<root_id>/checkpoint/<block_id>`.
pub proof fn law_checkpoint_input_paths(
    core: CoreShardCheckpointTask,
    special: SpecialCheckpointTask,
)
    ensures
        core.input_path_texts() =~~= seq![
            SHARED_RAMDISK_PATH@ + "/"@ + core.root_id@ + "/checkpoint/"@ + core.block_id@,
        ],
        special.input_path_texts() =~~= seq![
            SHARED_RAMDISK_PATH@ + "/"@ + special.root_id@ + "/checkpoint/"@ + special.block_id@,
        ],
{
}

/// Law: a shard task reads `<huge tlb>/<root_id>/shard/<shard_id>` (a
/// global memory shard instead reads its two halves `-0` and `-1`); precompile
/// and global memory shards then also read `shard_ends` and `instr_count`
/// under `<local ramdisk>/<root_id>/shard/`, in that order.
pub proof fn law_shard_input_paths(task: ShardTask)
    ensures
        ({
            let shard = LOCAL_HUGE_TLB_PATH@ + "/"@ + task.root_id@ + "/shard"@ + "/"@ + decimal(
                task.shard_id as nat,
            );
            let side = LOCAL_RAMDISK_PATH@ + "/"@ + task.root_id@ + "/shard"@ + "/"@;
            let paths = task.input_path_texts();
            &&& task.task_type == ShardTaskType::Core ==> paths =~~= seq![shard]
            &&& task.task_type == ShardTaskType::Precompile ==> paths =~~= seq![
                shard,
                side + "shard_ends"@,
                side + "instr_count"@,
            ]
            &&& task.task_type == ShardTaskType::GlobalMemory ==> paths =~~= seq![
                shard + "-0"@,
                shard + "-1"@,
                side + "shard_ends"@,
                side + "instr_count"@,
            ]
        }),
{
    let shard = LOCAL_HUGE_TLB_PATH@ + "/"@ + task.root_id@ + "/shard"@ + "/"@ + decimal(
        task.shard_id as nat,
    );
    reveal_strlit("");
    assert(shard_file_text(task.root_id@, task.shard_id, ""@) =~= shard);
    assert(shard_file_text(task.root_id@, task.shard_id, "-0"@) =~= shard + "-0"@);
    assert(shard_file_text(task.root_id@, task.shard_id, "-1"@) =~= shard + "-1"@);
    let side = LOCAL_RAMDISK_PATH@ + "/"@ + task.root_id@ + "/shard"@ + "/"@;
    assert(shard_side_text(task.root_id@, "shard_ends"@) =~= side + "shard_ends"@);
    assert(shard_side_text(task.root_id@, "instr_count"@) =~= side + "instr_count"@);
}

/// Law: a compose task reads `<shared ramdisk>/<root_id>/compose/<height>-<index>`.
pub proof fn law_compose_input_paths(task: ComposeTask)
    ensures
        task.input_path_texts() =~~= seq![
            SHARED_RAMDISK_PATH@ + "/"@ + task.root_id@ + "/compose/"@ + decimal(task.height as nat)
                + "-"@ + decimal(task.index as nat),
        ],
{
    assert(task.input_path_texts()[0] =~= SHARED_RAMDISK_PATH@ + "/"@ + task.root_id@
        + "/compose/"@ + decimal(task.height as nat) + "-"@ + decimal(task.index as nat));
}

/// Law: at height 0 (1-to-1 recursion) a recursion CPU task reads
/// `<shared ramdisk>/<root_id>/recursion_cpu/0-<index>` and the verifying key
/// `<shared ramdisk>/program/eth-block-vk.bin`; at every other height (2-to-1
/// recursion) it reads `.../recursion_cpu/<height>-<index>-0` and `...-1`, and
/// never the verifying key.
pub proof fn law_recursion_cpu_input_paths(task: RecursionCpuTask)
    ensures
        ({
            let position = SHARED_RAMDISK_PATH@ + "/"@ + task.root_id@ + "/recursion_cpu/"@
                + decimal(task.height as nat) + "-"@ + decimal(task.index as nat);
            &&& task.height == 0 ==> task.input_path_texts() =~~= seq![
                position,
                SHARED_RAMDISK_PATH@ + "/program/eth-block-vk.bin"@,
            ]
            &&& task.height != 0 ==> task.input_path_texts() =~~= seq![
                position + "-0"@,
                position + "-1"@,
            ]
        }),
{
    let position = SHARED_RAMDISK_PATH@ + "/"@ + task.root_id@ + "/recursion_cpu/"@ + decimal(
        task.height as nat,
    ) + "-"@ + decimal(task.index as nat);
    reveal_strlit("");
    assert(recursion_cpu_text(task.root_id@, task.height, task.index, ""@) =~= position);
    assert(recursion_cpu_text(task.root_id@, task.height, task.index, "-0"@) =~= position
        + "-0"@);
    assert(recursion_cpu_text(task.root_id@, task.height, task.index, "-1"@) =~= position
        + "-1"@);
}

/// Law: a recursion GPU task reads
/// `<local ramdisk>/<root_id>/recursion_gpu/<height>-<index>`.
pub proof fn law_recursion_gpu_input_paths(task: RecursionGpuTask)
    ensures
        task.input_path_texts() =~~= seq![
            LOCAL_RAMDISK_PATH@ + "/"@ + task.root_id@ + "/recursion_gpu/"@ + decimal(
                task.height as nat,
            ) + "-"@ + decimal(task.index as nat),
        ],
{
    assert(task.input_path_texts()[0] =~= LOCAL_RAMDISK_PATH@ + "/"@ + task.root_id@
        + "/recursion_gpu/"@ + decimal(task.height as nat) + "-"@ + decimal(task.index as nat));
}

} // verus!
