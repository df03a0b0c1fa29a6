//! Type-safe options of the quick-start interface.

use vstd::prelude::*;
use vstd::std_specs::convert::FromSpecImpl;
use crate::config::OutputFormat;
use crate::filter::FilterConfig;
use crate::preset::PresetKind;

verus! {

/// Output format for generated files.
#[derive(Debug, Clone, Copy, PartialEq, Eq, Structural)]
pub enum Format {
    /// Markdown format (default)
    Markdown,
    /// XML format
    Xml,
    /// JSON format
    Json,
    /// Custom format (use with a template)
    Custom,
}

impl From<Format> for OutputFormat {
    fn from(format: Format) -> (output: Self) {
        match format {
            Format::Markdown => Self::Markdown,
            Format::Xml => Self::Xml,
            Format::Json => Self::Json,
            Format::Custom => Self::Custom,
        }
    }
}

impl FromSpecImpl<Format> for OutputFormat {
    open spec fn obeys_from_spec() -> bool {
        true
    }

    open spec fn from_spec(format: Format) -> Self {
        match format {
            Format::Markdown => OutputFormat::Markdown,
            Format::Xml => OutputFormat::Xml,
            Format::Json => OutputFormat::Json,
            Format::Custom => OutputFormat::Custom,
        }
    }
}

/// Preset configurations for common use cases.
///
/// Each preset optimizes settings for a specific task.
#[derive(Debug, Clone, Copy, PartialEq, Eq, Structural)]
pub enum Preset {
    /// Optimized for code review: removes tests, comments, and debug prints
    CodeReview,
    /// Optimized for documentation: keeps all comments and docs
    Documentation,
    /// Optimized for refactoring: clean view of structure
    Refactoring,
    /// Optimized for bug analysis: focuses on logic
    BugAnalysis,
    /// Optimized for security audit: includes everything
    SecurityAudit,
    /// Optimized for test generation: keeps tests as examples
    TestGeneration,
    /// Optimized for architecture review: high-level view
    ArchitectureReview,
    /// Optimized for performance analysis: focuses on algorithms
    PerformanceAnalysis,
    /// Optimized for migration planning: comprehensive view
    MigrationPlan,
    /// Optimized for API design: focuses on public interfaces
    ApiDesign,
}

impl From<Preset> for PresetKind {
    fn from(preset: Preset) -> (kind: Self) {
        match preset {
            Preset::CodeReview => Self::CodeReview,
            Preset::Documentation => Self::Documentation,
            Preset::Refactoring => Self::Refactoring,
            Preset::BugAnalysis => Self::BugAnalysis,
            Preset::SecurityAudit => Self::SecurityAudit,
            Preset::TestGeneration => Self::TestGeneration,
            Preset::ArchitectureReview => Self::ArchitectureReview,
            Preset::PerformanceAnalysis => Self::PerformanceAnalysis,
            Preset::MigrationPlan => Self::MigrationPlan,
            Preset::ApiDesign => Self::ApiDesign,
        }
    }
}

impl FromSpecImpl<Preset> for PresetKind {
    open spec fn obeys_from_spec() -> bool {
        true
    }

    open spec fn from_spec(preset: Preset) -> Self {
        match preset {
            Preset::CodeReview => PresetKind::CodeReview,
            Preset::Documentation => PresetKind::Documentation,
            Preset::Refactoring => PresetKind::Refactoring,
            Preset::BugAnalysis => PresetKind::BugAnalysis,
            Preset::SecurityAudit => PresetKind::SecurityAudit,
            Preset::TestGeneration => PresetKind::TestGeneration,
            Preset::ArchitectureReview => PresetKind::ArchitectureReview,
            Preset::PerformanceAnalysis => PresetKind::PerformanceAnalysis,
            Preset::MigrationPlan => PresetKind::MigrationPlan,
            Preset::ApiDesign => PresetKind::ApiDesign,
        }
    }
}

/// The directory patterns that a scan leaves out by default.
pub open spec fn default_exclude_patterns() -> Seq<Seq<char>> {
    seq![
        "**/node_modules"@,
        "**/target"@,
        "**/out"@,
        "**/dist"@,
        "**/build"@,
        "**/.git"@,
        "**/templates"@,
        "**/.idea"@,
        "**/.vscode"@,
        "**/vendor"@,
    ]
}

/// The directory patterns that a scan leaves out by default.
pub fn default_excludes() -> (patterns: Vec<String>)
    ensures
        crate::text::texts(patterns@) == default_exclude_patterns(),
{
    let mut patterns: Vec<String> = Vec::new();
    patterns.push("**/node_modules".to_owned());
    patterns.push("**/target".to_owned());
    patterns.push("**/out".to_owned());
    patterns.push("**/dist".to_owned());
    patterns.push("**/build".to_owned());
    patterns.push("**/.git".to_owned());
    patterns.push("**/templates".to_owned());
    patterns.push("**/.idea".to_owned());
    patterns.push("**/.vscode".to_owned());
    patterns.push("**/vendor".to_owned());
    assert(crate::text::texts(patterns@) == default_exclude_patterns());
    patterns
}

/// Whether a kind of content is removed from the code or kept in it.
#[derive(Debug, Clone, Copy, PartialEq, Eq, Structural)]
pub enum FilterMode {
    /// Take the content out.
    Remove,
    /// Leave the content in.
    Keep,
}

/// Filtering options for code processing.
#[derive(Debug, Clone, Copy)]
pub struct FilterOptions {
    /// Test code
    pub tests: FilterMode,
    /// Regular comments
    pub comments: FilterMode,
    /// Documentation comments
    pub doc_comments: FilterMode,
    /// Debug print statements
    pub debug_prints: FilterMode,
}

impl Default for FilterOptions {
    fn default() -> (options: Self)
        ensures
            options == (FilterOptions {
                tests: FilterMode::Remove,
                comments: FilterMode::Remove,
                doc_comments: FilterMode::Remove,
                debug_prints: FilterMode::Remove,
            }),
    {
        Self {
            tests: FilterMode::Remove,
            comments: FilterMode::Remove,
            doc_comments: FilterMode::Remove,
            debug_prints: FilterMode::Remove,
        }
    }
}

impl FilterOptions {
    /// The filter configuration that these options ask for: blank lines go
    /// and headers stay in any case.
    pub fn filter_config(&self) -> (config: FilterConfig)
        ensures
            config == (FilterConfig {
                remove_tests: self.tests == FilterMode::Remove,
                remove_doc_comments: self.doc_comments == FilterMode::Remove,
                remove_comments: self.comments == FilterMode::Remove,
                remove_blank_lines: true,
                preserve_headers: true,
                remove_debug_prints: self.debug_prints == FilterMode::Remove,
            }),
    {
        FilterConfig {
            remove_tests: self.tests == FilterMode::Remove,
            remove_doc_comments: self.doc_comments == FilterMode::Remove,
            remove_comments: self.comments == FilterMode::Remove,
            remove_blank_lines: true,
            preserve_headers: true,
            remove_debug_prints: self.debug_prints == FilterMode::Remove,
        }
    }
}

} // verus!
