use llm_utl::config::OutputFormat;
use llm_utl::error::Error;
use llm_utl::file::FileData;
use llm_utl::pipeline::PipelineStats;
use llm_utl::splitter::Chunk;
use llm_utl::template::detect_language;
use llm_utl::template::language_for_extension;
use llm_utl::template::template_name;
use llm_utl::template::truncate_lines;
use llm_utl::template::xml_escape;
use llm_utl::template::DEFAULT_MAX_LINES;
use llm_utl::template_validator::check_required_variables;
use llm_utl::template_validator::check_template_size;
use llm_utl::template_validator::check_template_text;
use llm_utl::template_validator::missing_required_variables;
use llm_utl::template_validator::unused_optional_variables;
use llm_utl::template_validator::validate_template_text;
use llm_utl::template_validator::MAX_TEMPLATE_SIZE;
use llm_utl::text::replace_all;
use llm_utl::text::zero_padded_string;
use llm_utl::writer::output_extension;
use llm_utl::writer::output_file_name;
use std::path::PathBuf;
use std::time::Duration;

fn template_message(result: Result<(), Error>) -> (String, String) {
    match result {
        Err(Error::Template { template, message }) => (template, message),
        other => panic!("expected a template error, got {:?}", other),
    }
}

fn chunk(index: usize, tokens: usize) -> Chunk {
    Chunk::new(
        index,
        vec![FileData::new_text(
            PathBuf::from("test.rs"),
            "test.rs".to_string(),
            "fn main() {}".to_string(),
            tokens,
        )],
        tokens,
    )
}

fn stats(chunks: &[Chunk]) -> PipelineStats {
    PipelineStats::new(
        7,
        5,
        2,
        chunks,
        Duration::from_secs(10),
        Duration::from_secs(1),
        Duration::from_secs(2),
        Duration::from_secs(3),
        "./out".to_string(),
        4,
    )
}

#[test]
fn test_pipeline_stats_calculation() {
    let chunks = vec![
        Chunk {
            index: 0,
            files: vec![FileData::new_text(
                PathBuf::from("test.rs"),
                "test.rs".to_string(),
                "fn main() {}".to_string(),
                100,
            )],
            total_tokens: 100,
        },
        Chunk {
            index: 1,
            files: vec![FileData::new_text(
                PathBuf::from("test2.rs"),
                "test2.rs".to_string(),
                "pub fn test() {}".to_string(),
                200,
            )],
            total_tokens: 200,
        },
    ];

    let stats = PipelineStats::new(
        2,
        2,
        0,
        &chunks,
        Duration::from_secs(1),
        Duration::from_millis(300),
        Duration::from_millis(200),
        Duration::from_millis(500),
        "/tmp/out".to_string(),
        3,
    );

    assert_eq!(stats.total_chunks, 2);
    assert_eq!(stats.total_tokens, 300);
    assert_eq!(stats.avg_tokens_per_chunk, 150);
    assert_eq!(stats.max_chunk_tokens, 200);
    assert_eq!(stats.min_chunk_tokens, 100);
}

#[test]
fn stats_keep_what_they_are_given() {
    let chunks = vec![chunk(0, 5), chunk(1, 2), chunk(2, 9), chunk(3, 2)];
    let stats = stats(&chunks);
    assert_eq!(stats.total_files, 7);
    assert_eq!(stats.text_files, 5);
    assert_eq!(stats.binary_files, 2);
    assert_eq!(stats.duration, Duration::from_secs(10));
    assert_eq!(stats.scan_duration, Duration::from_secs(1));
    assert_eq!(stats.split_duration, Duration::from_secs(2));
    assert_eq!(stats.write_duration, Duration::from_secs(3));
    assert_eq!(stats.output_directory, "./out");
    assert_eq!(stats.files_written, 4);
    assert_eq!(stats.total_tokens, 18);
    assert_eq!(stats.avg_tokens_per_chunk, 4);
    assert_eq!(stats.max_chunk_tokens, 9);
    assert_eq!(stats.min_chunk_tokens, 2);
}

#[test]
fn stats_of_no_chunk_are_zero() {
    let stats = stats(&[]);
    assert_eq!(stats.total_chunks, 0);
    assert_eq!(stats.total_tokens, 0);
    assert_eq!(stats.avg_tokens_per_chunk, 0);
    assert_eq!(stats.max_chunk_tokens, 0);
    assert_eq!(stats.min_chunk_tokens, 0);
}

#[test]
fn stats_total_stops_at_the_largest_number() {
    let chunks = vec![chunk(0, usize::MAX - 1), chunk(1, 5)];
    let stats = stats(&chunks);
    assert_eq!(stats.total_tokens, usize::MAX);
    assert_eq!(stats.max_chunk_tokens, usize::MAX - 1);
    assert_eq!(stats.min_chunk_tokens, 5);
}

#[test]
fn test_get_output_path() {
    let extension = output_extension(OutputFormat::Markdown, None);

    let name = output_file_name("prompt_{index:03}.{ext}", 0, &extension);
    assert!(name.contains("prompt_001.md"));

    let name = output_file_name("prompt_{index:03}.{ext}", 9, &extension);
    assert!(name.contains("prompt_010.md"));
}

#[test]
fn output_file_name_fills_every_placeholder() {
    assert_eq!(output_file_name("p_{index:03}.{ext}", 999, "md"), "p_1000.md");
    assert_eq!(output_file_name("p_{index:02}.{ext}", 8, "xml"), "p_09.xml");
    assert_eq!(output_file_name("p_{index:02}.{ext}", 122, "xml"), "p_123.xml");
    assert_eq!(output_file_name("{index}-{index}.{ext}.{ext}", 6, "json"), "7-7.json.json");
    assert_eq!(output_file_name("{index:03}{index:02}{index}", 0, "x"), "001011");
    assert_eq!(output_file_name("plain", 3, "md"), "plain");
    assert_eq!(output_file_name("{index:04}.{ext}", 3, "md"), "{index:04}.md");
    assert_eq!(output_file_name("{ext}", 0, "{index}"), "{index}");
}

#[test]
fn output_extension_follows_the_format() {
    assert_eq!(output_extension(OutputFormat::Markdown, Some("zz")), "md");
    assert_eq!(output_extension(OutputFormat::Xml, None), "xml");
    assert_eq!(output_extension(OutputFormat::Json, None), "json");
    assert_eq!(output_extension(OutputFormat::Custom, None), "txt");
    assert_eq!(output_extension(OutputFormat::Custom, Some("tmpl")), "tmpl");
}

#[test]
fn replace_all_agrees_with_std_replace() {
    let cases = [
        ("", "a", "b"),
        ("aaa", "a", "bb"),
        ("aaa", "aa", "b"),
        ("abcabc", "bc", ""),
        ("abcabc", "abcabc", "x"),
        ("abcabc", "abcabcd", "x"),
        ("a.b.c", ".", ".."),
        ("ééé", "é", "e"),
        ("{index}{index:03}", "{index}", "1"),
        ("aXbXc", "X", "aXb"),
    ];
    for (text, from, to) in cases {
        let chars: Vec<char> = text.chars().collect();
        let replaced: String = replace_all(&chars, from, to).into_iter().collect();
        assert_eq!(replaced, text.replace(from, to), "{:?}", (text, from, to));
    }
}

#[test]
fn zero_padding_fills_up_to_the_width() {
    assert_eq!(zero_padded_string(7, 3), "007");
    assert_eq!(zero_padded_string(42, 3), "042");
    assert_eq!(zero_padded_string(123, 3), "123");
    assert_eq!(zero_padded_string(1234, 3), "1234");
    assert_eq!(zero_padded_string(0, 2), "00");
    assert_eq!(zero_padded_string(5, 0), "5");
    assert_eq!(zero_padded_string(5, 1), "5");
}

#[test]
fn test_xml_escape_filter() {
    let escaped = xml_escape("<test & \"quotes\">");
    assert_eq!(escaped, "&lt;test &amp; &quot;quotes&quot;&gt;");
}

#[test]
fn xml_escape_writes_each_reserved_character_as_its_entity() {
    assert_eq!(xml_escape("&<>\"'"), "&amp;&lt;&gt;&quot;&apos;");
    assert_eq!(xml_escape("&amp;"), "&amp;amp;");
    assert_eq!(xml_escape("plain é"), "plain é");
    assert_eq!(xml_escape(""), "");
    assert_eq!(xml_escape("a<b && c>'d'"), "a&lt;b &amp;&amp; c&gt;&apos;d&apos;");
}

#[test]
fn test_detect_language_filter() {
    let test_cases = vec![
        ("test.rs", "rust"),
        ("script.py", "python"),
        ("app.js", "javascript"),
        ("style.css", "css"),
        ("index.html", "html"),
        ("config.toml", "toml"),
        ("unknown.xyz", ""),
    ];

    for (path, expected_lang) in test_cases {
        assert_eq!(detect_language(path), expected_lang);
    }
}

#[test]
fn detect_language_reads_what_stands_behind_the_last_dot() {
    assert_eq!(detect_language("src/main.py"), "python");
    assert_eq!(detect_language("a.b.tsx"), "tsx");
    assert_eq!(detect_language("archive.tar.gz"), "");
    assert_eq!(detect_language("Makefile"), "");
    assert_eq!(detect_language("makefile"), "makefile");
    assert_eq!(detect_language("dockerfile"), "dockerfile");
    assert_eq!(detect_language("x."), "");
    assert_eq!(detect_language(""), "");
    assert_eq!(detect_language("dir.rs/file"), "");
    assert_eq!(detect_language(".rs"), "rust");
}

#[test]
fn every_known_extension_has_its_language() {
    let known = [
        ("rs", "rust"),
        ("py", "python"),
        ("js", "javascript"),
        ("ts", "typescript"),
        ("jsx", "jsx"),
        ("tsx", "tsx"),
        ("go", "go"),
        ("java", "java"),
        ("c", "c"),
        ("h", "c"),
        ("cpp", "cpp"),
        ("cc", "cpp"),
        ("cxx", "cpp"),
        ("hpp", "cpp"),
        ("hh", "cpp"),
        ("hxx", "cpp"),
        ("cs", "csharp"),
        ("rb", "ruby"),
        ("php", "php"),
        ("swift", "swift"),
        ("kt", "kotlin"),
        ("scala", "scala"),
        ("sh", "bash"),
        ("bash", "bash"),
        ("zsh", "zsh"),
        ("fish", "fish"),
        ("ps1", "powershell"),
        ("html", "html"),
        ("htm", "html"),
        ("css", "css"),
        ("scss", "scss"),
        ("sass", "sass"),
        ("xml", "xml"),
        ("json", "json"),
        ("yaml", "yaml"),
        ("yml", "yaml"),
        ("toml", "toml"),
        ("ini", "ini"),
        ("md", "markdown"),
        ("markdown", "markdown"),
        ("sql", "sql"),
        ("graphql", "graphql"),
        ("gql", "graphql"),
        ("proto", "protobuf"),
        ("dockerfile", "dockerfile"),
        ("makefile", "makefile"),
    ];
    for (extension, language) in known {
        assert_eq!(language_for_extension(extension), language, "{}", extension);
    }
    for extension in ["", "RS", "txt", "exe", "r", "rss"] {
        assert_eq!(language_for_extension(extension), "", "{}", extension);
    }
}

#[test]
fn test_truncate_lines_filter() {
    let content = (0..100).map(|i| format!("Line {}", i)).collect::<Vec<_>>().join("\n");

    let truncated = truncate_lines(&content, 10);
    assert!(truncated.contains("90 more lines omitted"));
}

#[test]
fn truncate_lines_keeps_the_first_lines_and_counts_the_rest() {
    assert_eq!(truncate_lines("a\nb\nc\nd", 2), "a\nb\n... (2 more lines omitted)");
    assert_eq!(truncate_lines("a\nb\nc\nd", 4), "a\nb\nc\nd");
    assert_eq!(truncate_lines("a\r\nb\r\n", 2), "a\r\nb\r\n");
    assert_eq!(truncate_lines("a\r\nb\r\nc", 2), "a\nb\n... (1 more lines omitted)");
    assert_eq!(truncate_lines("a\nb", 0), "\n... (2 more lines omitted)");
    assert_eq!(truncate_lines("", 0), "");
    let long = "x\n".repeat(DEFAULT_MAX_LINES + 5);
    assert!(truncate_lines(&long, DEFAULT_MAX_LINES).ends_with("\n... (5 more lines omitted)"));
}

#[test]
fn test_validate_valid_template() {
    let content = "Chunk {{ ctx.chunk_index }}/{{ ctx.total_chunks }}\n\
                {% for file in ctx.files %}{{ file.path }}{% endfor %}";

    let result = validate_template_text(content, "test.tera");
    assert!(result.is_ok());
}

#[test]
fn test_validate_empty_template() {
    let result = validate_template_text("   \n  \n  ", "empty.tera");
    assert!(result.is_err());
    assert!(result.unwrap_err().to_string().contains("empty"));
}

#[test]
fn test_validate_syntax_error() {
    let result = validate_template_text("{% if condition %}\nUnclosed if", "invalid.tera");
    assert!(result.is_err());
    assert!(result.unwrap_err().to_string().contains("Template syntax error"));
}

#[test]
fn test_validate_missing_required_vars() {
    let result = validate_template_text("Hello {{ ctx.chunk_index }}", "incomplete.tera");
    assert!(result.is_err());
    let err_msg = result.unwrap_err().to_string();
    assert!(err_msg.contains("missing required variables"));
}

#[test]
fn test_validate_with_for_loop() {
    let content = "Chunk {{ ctx.chunk_index }}/{{ ctx.total_chunks }}\n\
                {% for file in ctx.files %}\n\
                  File: {{ file.path }}\n\
                {% endfor %}";

    let result = validate_template_text(content, "with_loop.tera");
    assert!(result.is_ok());
}

#[test]
fn test_validate_file_too_large() {
    let result = check_template_size(MAX_TEMPLATE_SIZE + 1, "large.tera");
    assert!(result.is_err());
    assert!(result.unwrap_err().to_string().contains("too large"));
}

#[test]
fn template_errors_name_the_template() {
    let (template, message) = template_message(validate_template_text(" ", "dir/empty.tera"));
    assert_eq!(template, "dir/empty.tera");
    assert_eq!(message, "Template file is empty");
}

#[test]
fn template_size_is_allowed_up_to_the_limit() {
    assert!(check_template_size(0, "t").is_ok());
    assert!(check_template_size(MAX_TEMPLATE_SIZE, "t").is_ok());
    let (template, message) = template_message(check_template_size(MAX_TEMPLATE_SIZE + 1, "t"));
    assert_eq!(template, "t");
    assert_eq!(message, "Template file too large: 1048577 bytes (max: 1048576 bytes)");
}

#[test]
fn missing_required_variables_are_listed_in_order() {
    assert_eq!(
        missing_required_variables("nothing"),
        vec!["chunk_index", "total_chunks", "files"]
    );
    assert_eq!(missing_required_variables("{{ ctx.total_chunks }}"), vec!["chunk_index", "files"]);
    assert_eq!(
        missing_required_variables("{{chunk_index }} {% for f in files %}"),
        vec!["total_chunks"]
    );
    assert_eq!(
        missing_required_variables("ctx.chunk_index ctx.total_chunks in ctx.files"),
        Vec::<String>::new()
    );
    // Named without the context and without a space behind it: not seen.
    assert_eq!(missing_required_variables("{{files}}"), vec!["chunk_index", "total_chunks", "files"]);
}

#[test]
fn unused_optional_variables_are_listed_in_order() {
    assert_eq!(
        unused_optional_variables(""),
        vec!["chunk_files", "total_tokens", "metadata", "preset", "custom"]
    );
    assert_eq!(
        unused_optional_variables("{{ ctx.metadata.format }} {{preset }} in custom"),
        vec!["chunk_files", "total_tokens", "custom"]
    );
}

#[test]
fn required_variables_check_names_what_is_missing() {
    assert!(check_required_variables("ctx.chunk_index ctx.total_chunks ctx.files", "t").is_ok());
    let (template, message) =
        template_message(check_required_variables("{{ ctx.chunk_index }}", "dir/t.tera"));
    assert_eq!(template, "dir/t.tera");
    assert_eq!(
        message,
        "Template may be missing required variables: total_chunks, files. \nTemplates should access: chunk_index, total_chunks, files. \nSee built-in templates for reference."
    );
}

#[test]
fn template_text_is_checked_in_order() {
    let good = "ctx.chunk_index ctx.total_chunks ctx.files";
    assert!(check_template_text(good, "t", None).is_ok());
    // Blank before syntax, syntax before variables.
    let (_, message) = template_message(check_template_text(" \t\n", "t", Some("bad")));
    assert_eq!(message, "Template file is empty");
    let (_, message) = template_message(check_template_text("x", "t", Some("bad tag")));
    assert_eq!(message, "Template syntax error: bad tag");
    let (_, message) = template_message(check_template_text(good, "t", Some("bad tag")));
    assert_eq!(message, "Template syntax error: bad tag");
    let (_, message) = template_message(check_template_text("x", "t", None));
    assert!(message.starts_with("Template may be missing required variables: chunk_index, total_chunks, files. "));
}

#[test]
fn template_engine_is_asked_about_the_syntax() {
    let good = "{{ ctx.chunk_index }} {{ ctx.total_chunks }} {% for f in ctx.files %}{% endfor %}";
    assert!(validate_template_text(good, "t").is_ok());
    let broken = "{{ ctx.chunk_index }} {{ ctx.total_chunks }} {% for f in ctx.files %}";
    let (template, message) = template_message(validate_template_text(broken, "t"));
    assert_eq!(template, "t");
    assert!(message.starts_with("Template syntax error: "));
    assert!(message.len() > "Template syntax error: ".len());
}

#[test]
fn stats_clone_keeps_every_field() {
    let chunks = vec![chunk(0, 5), chunk(1, 7)];
    let stats = stats(&chunks);
    let copy = stats.clone();
    assert_eq!(copy.total_files, stats.total_files);
    assert_eq!(copy.total_chunks, 2);
    assert_eq!(copy.total_tokens, 12);
    assert_eq!(copy.duration, stats.duration);
    assert_eq!(copy.scan_duration, stats.scan_duration);
    assert_eq!(copy.split_duration, stats.split_duration);
    assert_eq!(copy.write_duration, stats.write_duration);
    assert_eq!(copy.output_directory, stats.output_directory);
}

#[test]
fn chunks_above_nine_tenths_of_the_limit_are_near_it() {
    use_count(&[], 100, 0);
    use_count(&[90], 100, 0);
    use_count(&[91], 100, 1);
    use_count(&[10, 95, 100, 90, 200], 100, 3);
    use_count(&[9], 10, 0);
    use_count(&[1], 1, 1);
    use_count(&[0], 0, 0);
    use_count(&[usize::MAX], usize::MAX, 1);
}

fn use_count(totals: &[usize], limit: usize, expected: usize) {
    let chunks: Vec<Chunk> = totals.iter().enumerate().map(|(i, &t)| chunk(i, t)).collect();
    assert_eq!(llm_utl::pipeline::count_near_limit(&chunks, limit), expected);
}

#[test]
fn template_name_follows_format_and_preset() {
    assert_eq!(template_name(OutputFormat::Markdown, false), "markdown");
    assert_eq!(template_name(OutputFormat::Xml, false), "xml");
    assert_eq!(template_name(OutputFormat::Json, false), "json");
    assert_eq!(template_name(OutputFormat::Custom, false), "custom");
    assert_eq!(template_name(OutputFormat::Markdown, true), "preset_markdown");
    assert_eq!(template_name(OutputFormat::Xml, true), "preset_xml");
    assert_eq!(template_name(OutputFormat::Json, true), "preset_json");
    assert_eq!(template_name(OutputFormat::Custom, true), "custom");
}
