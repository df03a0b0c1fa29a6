//! LLM preset kinds for different use cases.

use vstd::prelude::*;
use crate::text::text_eq;

verus! {

/// Type of preset for LLM tasks.
#[derive(Debug, Clone, Copy, PartialEq, Eq, Structural)]
pub enum PresetKind {
    /// Comprehensive code review
    CodeReview,
    /// Documentation generation
    Documentation,
    /// Refactoring suggestions
    Refactoring,
    /// Bug detection and analysis
    BugAnalysis,
    /// Security audit
    SecurityAudit,
    /// Test generation
    TestGeneration,
    /// Architecture review
    ArchitectureReview,
    /// Performance analysis
    PerformanceAnalysis,
    /// Migration planning
    MigrationPlan,
    /// API design review
    ApiDesign,
}

/// Code block formatting style.
#[derive(Debug, Clone, Copy)]
pub enum CodeBlockStyle {
    /// Markdown code blocks
    Markdown,
    /// XML CDATA sections
    Xml,
    /// Inline code
    Inline,
}

/// All preset kinds, in the order of their declaration.
pub open spec fn all_kinds() -> Seq<PresetKind> {
    seq![
        PresetKind::CodeReview,
        PresetKind::Documentation,
        PresetKind::Refactoring,
        PresetKind::BugAnalysis,
        PresetKind::SecurityAudit,
        PresetKind::TestGeneration,
        PresetKind::ArchitectureReview,
        PresetKind::PerformanceAnalysis,
        PresetKind::MigrationPlan,
        PresetKind::ApiDesign,
    ]
}

/// The preset kind that `id` names, if it names one.
pub open spec fn kind_of(id: Seq<char>) -> Option<PresetKind> {
    if id == "code-review"@ {
        Some(PresetKind::CodeReview)
    } else if id == "documentation"@ {
        Some(PresetKind::Documentation)
    } else if id == "refactoring"@ {
        Some(PresetKind::Refactoring)
    } else if id == "bug-analysis"@ {
        Some(PresetKind::BugAnalysis)
    } else if id == "security-audit"@ {
        Some(PresetKind::SecurityAudit)
    } else if id == "test-generation"@ {
        Some(PresetKind::TestGeneration)
    } else if id == "architecture-review"@ {
        Some(PresetKind::ArchitectureReview)
    } else if id == "performance-analysis"@ {
        Some(PresetKind::PerformanceAnalysis)
    } else if id == "migration-plan"@ {
        Some(PresetKind::MigrationPlan)
    } else if id == "api-design"@ {
        Some(PresetKind::ApiDesign)
    } else {
        None
    }
}

impl PresetKind {
    /// The ID string of this preset.
    pub open spec fn id_text(self) -> Seq<char> {
        match self {
            PresetKind::CodeReview => "code-review"@,
            PresetKind::Documentation => "documentation"@,
            PresetKind::Refactoring => "refactoring"@,
            PresetKind::BugAnalysis => "bug-analysis"@,
            PresetKind::SecurityAudit => "security-audit"@,
            PresetKind::TestGeneration => "test-generation"@,
            PresetKind::ArchitectureReview => "architecture-review"@,
            PresetKind::PerformanceAnalysis => "performance-analysis"@,
            PresetKind::MigrationPlan => "migration-plan"@,
            PresetKind::ApiDesign => "api-design"@,
        }
    }

    /// Returns the ID string for this preset.
    #[must_use]
    pub fn id(self) -> (id: &'static str)
        ensures
            id@ == self.id_text(),
    {
        match self {
            Self::CodeReview => "code-review",
            Self::Documentation => "documentation",
            Self::Refactoring => "refactoring",
            Self::BugAnalysis => "bug-analysis",
            Self::SecurityAudit => "security-audit",
            Self::TestGeneration => "test-generation",
            Self::ArchitectureReview => "architecture-review",
            Self::PerformanceAnalysis => "performance-analysis",
            Self::MigrationPlan => "migration-plan",
            Self::ApiDesign => "api-design",
        }
    }

    /// Returns all available preset kinds.
    #[must_use]
    pub fn all() -> (kinds: &'static [Self])
        ensures
            kinds@ == all_kinds(),
    {
        let kinds: &'static [Self; 10] = &[
            Self::CodeReview,
            Self::Documentation,
            Self::Refactoring,
            Self::BugAnalysis,
            Self::SecurityAudit,
            Self::TestGeneration,
            Self::ArchitectureReview,
            Self::PerformanceAnalysis,
            Self::MigrationPlan,
            Self::ApiDesign,
        ];
        assert(kinds@ == all_kinds());
        kinds
    }

    /// Parse preset kind from string ID.
    #[must_use]
    pub fn from_id(id: &str) -> (kind: Option<Self>)
        ensures
            kind == kind_of(id@),
    {
        if text_eq(id, "code-review") {
            Some(Self::CodeReview)
        } else if text_eq(id, "documentation") {
            Some(Self::Documentation)
        } else if text_eq(id, "refactoring") {
            Some(Self::Refactoring)
        } else if text_eq(id, "bug-analysis") {
            Some(Self::BugAnalysis)
        } else if text_eq(id, "security-audit") {
            Some(Self::SecurityAudit)
        } else if text_eq(id, "test-generation") {
            Some(Self::TestGeneration)
        } else if text_eq(id, "architecture-review") {
            Some(Self::ArchitectureReview)
        } else if text_eq(id, "performance-analysis") {
            Some(Self::PerformanceAnalysis)
        } else if text_eq(id, "migration-plan") {
            Some(Self::MigrationPlan)
        } else if text_eq(id, "api-design") {
            Some(Self::ApiDesign)
        } else {
            None
        }
    }

    /// A kind is found again by its ID, and every kind is among
    /// [`all_kinds`].
    pub proof fn lemma_id_names_its_kind(self)
        ensures
            kind_of(self.id_text()) == Some(self),
            all_kinds().contains(self),
    {
        reveal_strlit("code-review");
        reveal_strlit("documentation");
        reveal_strlit("refactoring");
        reveal_strlit("bug-analysis");
        reveal_strlit("security-audit");
        reveal_strlit("test-generation");
        reveal_strlit("architecture-review");
        reveal_strlit("performance-analysis");
        reveal_strlit("migration-plan");
        reveal_strlit("api-design");
        assert("code-review"@.len() == 11);
        assert("documentation"@.len() == 13);
        assert("refactoring"@.len() == 11);
        assert("bug-analysis"@.len() == 12);
        assert("security-audit"@.len() == 14);
        assert("test-generation"@.len() == 15);
        assert("architecture-review"@.len() == 19);
        assert("performance-analysis"@.len() == 20);
        assert("migration-plan"@.len() == 14);
        assert("api-design"@.len() == 10);
        assert("code-review"@[0] != "refactoring"@[0]);
        assert("security-audit"@[0] != "migration-plan"@[0]);
        let all = all_kinds();
        match self {
            PresetKind::CodeReview => assert(all[0] == self),
            PresetKind::Documentation => assert(all[1] == self),
            PresetKind::Refactoring => assert(all[2] == self),
            PresetKind::BugAnalysis => assert(all[3] == self),
            PresetKind::SecurityAudit => assert(all[4] == self),
            PresetKind::TestGeneration => assert(all[5] == self),
            PresetKind::ArchitectureReview => assert(all[6] == self),
            PresetKind::PerformanceAnalysis => assert(all[7] == self),
            PresetKind::MigrationPlan => assert(all[8] == self),
            PresetKind::ApiDesign => assert(all[9] == self),
        }
    }
}

} // verus!
