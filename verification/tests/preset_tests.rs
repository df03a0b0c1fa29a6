use llm_utl::api::default_excludes;
use llm_utl::api::Format;
use llm_utl::api::Preset;
use llm_utl::config::effective_chunk_size;
use llm_utl::config::validate_custom_format;
use llm_utl::config::validate_output_pattern;
use llm_utl::config::validate_token_limits;
use llm_utl::config::OutputFormat;
use llm_utl::config::DEFAULT_CHUNK_SAFETY_MARGIN;
use llm_utl::config::DEFAULT_MAX_TOKENS;
use llm_utl::config::DEFAULT_OVERLAP_TOKENS;
use llm_utl::error::Error;
use llm_utl::preset::PresetKind;

fn config_message(result: Result<(), Error>) -> String {
    match result {
        Err(Error::Config { message }) => message,
        other => panic!("expected a configuration error, got {:?}", other),
    }
}

#[test]
fn preset_ids_name_their_kinds() {
    let expected = [
        (PresetKind::CodeReview, "code-review"),
        (PresetKind::Documentation, "documentation"),
        (PresetKind::Refactoring, "refactoring"),
        (PresetKind::BugAnalysis, "bug-analysis"),
        (PresetKind::SecurityAudit, "security-audit"),
        (PresetKind::TestGeneration, "test-generation"),
        (PresetKind::ArchitectureReview, "architecture-review"),
        (PresetKind::PerformanceAnalysis, "performance-analysis"),
        (PresetKind::MigrationPlan, "migration-plan"),
        (PresetKind::ApiDesign, "api-design"),
    ];
    for (kind, id) in expected {
        assert_eq!(kind.id(), id);
        assert_eq!(PresetKind::from_id(id), Some(kind));
    }
    let all: Vec<PresetKind> = expected.iter().map(|(k, _)| *k).collect();
    assert_eq!(PresetKind::all(), all.as_slice());
}

#[test]
fn every_kind_is_found_again_by_its_id() {
    for kind in PresetKind::all() {
        assert_eq!(PresetKind::from_id(kind.id()), Some(*kind));
    }
}

#[test]
fn unknown_ids_name_no_kind() {
    for id in ["", "code_review", "Code-Review", "code-review ", "review", "api", "api-design-2"] {
        assert_eq!(PresetKind::from_id(id), None, "{:?}", id);
    }
}

#[test]
fn quick_start_options_convert_to_their_kinds() {
    assert_eq!(OutputFormat::from(Format::Markdown), OutputFormat::Markdown);
    assert_eq!(OutputFormat::from(Format::Xml), OutputFormat::Xml);
    assert_eq!(OutputFormat::from(Format::Json), OutputFormat::Json);
    assert_eq!(OutputFormat::from(Format::Custom), OutputFormat::Custom);
    let pairs = [
        (Preset::CodeReview, PresetKind::CodeReview),
        (Preset::Documentation, PresetKind::Documentation),
        (Preset::Refactoring, PresetKind::Refactoring),
        (Preset::BugAnalysis, PresetKind::BugAnalysis),
        (Preset::SecurityAudit, PresetKind::SecurityAudit),
        (Preset::TestGeneration, PresetKind::TestGeneration),
        (Preset::ArchitectureReview, PresetKind::ArchitectureReview),
        (Preset::PerformanceAnalysis, PresetKind::PerformanceAnalysis),
        (Preset::MigrationPlan, PresetKind::MigrationPlan),
        (Preset::ApiDesign, PresetKind::ApiDesign),
    ];
    for (preset, kind) in pairs {
        let converted: PresetKind = preset.into();
        assert_eq!(converted, kind);
    }
}

#[test]
fn default_excludes_are_the_ten_directories() {
    assert_eq!(
        default_excludes(),
        vec![
            "**/node_modules",
            "**/target",
            "**/out",
            "**/dist",
            "**/build",
            "**/.git",
            "**/templates",
            "**/.idea",
            "**/.vscode",
            "**/vendor",
        ]
    );
}

#[test]
fn formats_name_their_extension_and_template() {
    assert_eq!(OutputFormat::Markdown.extension(), "md");
    assert_eq!(OutputFormat::Xml.extension(), "xml");
    assert_eq!(OutputFormat::Json.extension(), "json");
    assert_eq!(OutputFormat::Custom.extension(), "txt");
    assert_eq!(OutputFormat::Markdown.template_name(), "markdown");
    assert_eq!(OutputFormat::Xml.template_name(), "xml");
    assert_eq!(OutputFormat::Json.template_name(), "json");
    assert_eq!(OutputFormat::Custom.template_name(), "custom");
}

#[test]
fn effective_chunk_size_takes_the_margin_off() {
    assert_eq!(effective_chunk_size(3000, 2000), 1000);
    assert_eq!(effective_chunk_size(2000, 2000), 0);
    assert_eq!(effective_chunk_size(100, 2000), 0);
    assert_eq!(
        effective_chunk_size(DEFAULT_MAX_TOKENS, DEFAULT_CHUNK_SAFETY_MARGIN),
        98_000
    );
    assert_eq!(DEFAULT_OVERLAP_TOKENS, 1_000);
}

#[test]
fn test_invalid_token_limits() {
    let result = validate_token_limits(1000, 1000, DEFAULT_CHUNK_SAFETY_MARGIN);
    assert!(result.is_err());
}

#[test]
fn test_invalid_pattern() {
    let result = validate_output_pattern("invalid_pattern");
    assert!(result.is_err());
}

#[test]
fn token_limits_are_refused_with_the_first_broken_rule() {
    assert!(validate_token_limits(100_000, 1_000, 2_000).is_ok());
    assert!(validate_token_limits(2, 1, 1).is_ok());
    assert_eq!(
        config_message(validate_token_limits(0, 0, 0)),
        "max_tokens must be greater than 0"
    );
    assert_eq!(
        config_message(validate_token_limits(1000, 1000, 5000)),
        "overlap_tokens (1000) must be less than max_tokens (1000)"
    );
    assert_eq!(
        config_message(validate_token_limits(1000, 999, 2000)),
        "chunk_safety_margin (2000) must be less than max_tokens (1000)"
    );
    assert_eq!(
        config_message(validate_token_limits(1000, 0, 1000)),
        "chunk_safety_margin (1000) must be less than max_tokens (1000)"
    );
}

#[test]
fn output_pattern_needs_index_and_extension() {
    assert!(validate_output_pattern("prompt_{index:03}.{ext}").is_ok());
    assert!(validate_output_pattern("{ext}{index").is_ok());
    match validate_output_pattern("out.{ext}") {
        Err(Error::InvalidPattern { pattern, reason }) => {
            assert_eq!(pattern, "out.{ext}");
            assert_eq!(reason, "Pattern must contain {index} or {index:03} placeholder");
        }
        other => panic!("{:?}", other),
    }
    match validate_output_pattern("out_{index}.md") {
        Err(Error::InvalidPattern { pattern, reason }) => {
            assert_eq!(pattern, "out_{index}.md");
            assert_eq!(reason, "Pattern must contain {ext} placeholder");
        }
        other => panic!("{:?}", other),
    }
}

#[test]
fn custom_format_needs_name_extension_and_template() {
    for format in [OutputFormat::Markdown, OutputFormat::Xml, OutputFormat::Json] {
        assert!(validate_custom_format(format, false, false, false).is_ok());
    }
    assert!(validate_custom_format(OutputFormat::Custom, true, true, true).is_ok());
    assert_eq!(
        config_message(validate_custom_format(OutputFormat::Custom, false, false, false)),
        "Custom format requires custom_format_name. Use Config::builder().custom_format_name(\"my_format\")"
    );
    assert_eq!(
        config_message(validate_custom_format(OutputFormat::Custom, true, false, false)),
        "Custom format requires custom_extension. Use Config::builder().custom_extension(\"txt\")"
    );
    assert_eq!(
        config_message(validate_custom_format(OutputFormat::Custom, true, true, false)),
        "Custom format requires template_path. Use Config::builder().template_path(\"./template.tera\")"
    );
}
