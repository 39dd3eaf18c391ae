//! The settings of a writing run and their defaults.
use vstd::prelude::*;
use vstd::string::StringExecFns;

verus! {

/// The model provider used when the configuration names none.
pub fn default_provider() -> (r: String)
    ensures
        r@ == "ollama"@,
{
    String::from_str("ollama")
}

/// The quality to reach and how hard to try.
#[derive(Debug, Clone)]
pub struct QualityConfig {
    /// The target level (C, B, A, AA, AAA, S, SS or SSS).
    pub target_level: String,
    /// Whether to repair until the target is met.
    pub infinite_repair: bool,
    /// The most repair rounds (0: no bound).
    pub max_repair_rounds: u32,
}

impl Default for QualityConfig {
    fn default() -> (r: QualityConfig)
        ensures
            r.target_level@ == "SSS"@,
            r.infinite_repair,
            r.max_repair_rounds == 0,
    {
        QualityConfig { target_level: String::from_str("SSS"), infinite_repair: true, max_repair_rounds: 0 }
    }
}

/// How the pipeline runs.
#[derive(Debug, Clone)]
pub struct PipelineConfig {
    pub auto_commit: bool,
    pub max_retries: u32,
    pub max_repair_rounds: u32,
    pub output_dir: String,
    pub pause_between_steps: bool,
}

impl Default for PipelineConfig {
    fn default() -> (r: PipelineConfig)
        ensures
            r.auto_commit,
            r.max_retries == 3,
            r.max_repair_rounds == 2,
            r.output_dir@ == "./output"@,
            !r.pause_between_steps,
    {
        PipelineConfig {
            auto_commit: true,
            max_retries: 3,
            max_repair_rounds: 2,
            output_dir: String::from_str("./output"),
            pause_between_steps: false,
        }
    }
}

/// How results are committed.
#[derive(Debug, Clone)]
pub struct GitConfig {
    pub commit_prefix: String,
    pub push_after_complete: bool,
}

impl Default for GitConfig {
    fn default() -> (r: GitConfig)
        ensures
            r.commit_prefix@ == "🤖 [auto-drama]"@,
            !r.push_after_complete,
    {
        GitConfig { commit_prefix: String::from_str("🤖 [auto-drama]"), push_after_complete: false }
    }
}

/// Where and how much is logged.
#[derive(Debug, Clone)]
pub struct LoggingConfig {
    pub level: String,
    pub log_file: String,
    pub console_output: bool,
}

impl Default for LoggingConfig {
    fn default() -> (r: LoggingConfig)
        ensures
            r.level@ == "info"@,
            r.log_file@ == "./auto-drama.log"@,
            r.console_output,
    {
        LoggingConfig {
            level: String::from_str("info"),
            log_file: String::from_str("./auto-drama.log"),
            console_output: true,
        }
    }
}

/// Where the skills live.
#[derive(Debug, Clone)]
pub struct SkillsConfig {
    pub skills_dir: String,
    pub templates_dir: String,
    pub dynamic_skills_dir: String,
}

impl Default for SkillsConfig {
    fn default() -> (r: SkillsConfig)
        ensures
            r.skills_dir@ == "./skills"@,
            r.templates_dir@ == "./templates"@,
            r.dynamic_skills_dir@ == "./skills/dynamic"@,
    {
        SkillsConfig {
            skills_dir: String::from_str("./skills"),
            templates_dir: String::from_str("./templates"),
            dynamic_skills_dir: String::from_str("./skills/dynamic"),
        }
    }
}

/// Where the project memory lives and how much of it is shown.
#[derive(Debug, Clone)]
pub struct MemoryConfig {
    pub store_dir: String,
    /// The most bytes of memory context given to the model.
    pub max_context_chars: usize,
    /// The most entries shown per category.
    pub max_entries_per_category: usize,
}

impl Default for MemoryConfig {
    fn default() -> (r: MemoryConfig)
        ensures
            r.store_dir@ == "./.auto-drama"@,
            r.max_context_chars == 4000,
            r.max_entries_per_category == 20,
    {
        MemoryConfig { store_dir: String::from_str("./.auto-drama"), max_context_chars: 4000, max_entries_per_category: 20 }
    }
}

/// How the agent uses tools and context.
#[derive(Debug, Clone)]
pub struct AgentConfig {
    pub enable_tools: bool,
    pub max_tool_rounds: u32,
    pub auto_inject_memory: bool,
    pub auto_inject_goals: bool,
}

impl Default for AgentConfig {
    fn default() -> (r: AgentConfig)
        ensures
            r.enable_tools,
            r.max_tool_rounds == 15,
            r.auto_inject_memory,
            r.auto_inject_goals,
    {
        AgentConfig { enable_tools: true, max_tool_rounds: 15, auto_inject_memory: true, auto_inject_goals: true }
    }
}

} // verus!
