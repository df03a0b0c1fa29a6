use llm_utl::filter::find_comment_start;
use llm_utl::filter::strip_comment;
use llm_utl::filter::CodeFilter;
use llm_utl::filter::FileFilterConfig;
use llm_utl::filter::FilterConfig;
use llm_utl::filter::CFilter;
use llm_utl::filter::GoFilter;
use llm_utl::filter::JavaFilter;
use llm_utl::filter::JavaScriptFilter;
use llm_utl::filter::LanguageFilter;
use llm_utl::filter::PythonFilter;
use llm_utl::filter::RustFilter;
use std::path::Path;

fn chars(s: &str) -> Vec<char> {
    s.chars().collect()
}

#[test]
fn test_rust_filter_removes_tests() {
    let config = FilterConfig::default();
    let filter = CodeFilter::new(config);

    let code = r#"
fn production_code() {}

#[test]
fn test_something() {
    assert_eq!(1, 1);
}

fn more_production() {}
"#;

    let filtered = filter.filter(code, Path::new("test.rs"));
    assert!(!filtered.contains("#[test]"));
    assert!(!filtered.contains("test_something"));
    assert!(filtered.contains("production_code"));
    assert!(filtered.contains("more_production"));
}

#[test]
fn test_rust_filter_removes_comments() {
    let mut config = FilterConfig::default();
    config.remove_comments = true;

    let filter = CodeFilter::new(config);

    let code = r#"
// This is a comment
fn code() {} // inline comment
"#;

    let filtered = filter.filter(code, Path::new("test.rs"));
    assert!(!filtered.contains("This is a comment"));
    assert!(filtered.contains("fn code()"));
}

#[test]
fn test_python_filter_removes_tests() {
    let config = FilterConfig::default();
    let filter = CodeFilter::new(config);

    let code = r#"
def production_function():
    pass

def test_something():
    assert True

def another_production():
    pass
"#;

    let filtered = filter.filter(code, Path::new("test.py"));
    assert!(!filtered.contains("test_something"));
    assert!(filtered.contains("production_function"));
    assert!(filtered.contains("another_production"));
}

#[test]
fn test_filter_preserves_strings_with_comment_markers() {
    let config = FilterConfig {
        remove_doc_comments: true,
        remove_comments: true,
        ..Default::default()
    };
    let filter = CodeFilter::new(config);

    let code = r#"let url = "https://example.com"; // real comment"#;
    let filtered = filter.filter(code, Path::new("test.rs"));

    assert!(filtered.contains("https://"));
    assert!(!filtered.contains("real comment"));
}

#[test]
fn test_remove_println() {
    let config = FilterConfig {
        remove_debug_prints: true,
        ..Default::default()
    };
    let filter = CodeFilter::new(config);

    let code = r#"
fn main() {
    let x = 5;
    println!("x = {}", x);
    let y = 10;
}
"#;

    let filtered = filter.filter(code, Path::new("test.rs"));
    assert!(!filtered.contains("println!"));
    assert!(filtered.contains("let x = 5"));
    assert!(filtered.contains("let y = 10"));
}

#[test]
fn test_remove_multiline_println() {
    let config = FilterConfig {
        remove_debug_prints: true,
        ..Default::default()
    };
    let filter = CodeFilter::new(config);

    let code = r#"
fn main() {
    let x = 5;
    println!(
        "x = {}",
        x
    );
    let y = 10;
}
"#;

    let filtered = filter.filter(code, Path::new("test.rs"));
    assert!(!filtered.contains("println!"));
    assert!(filtered.contains("let x = 5"));
    assert!(filtered.contains("let y = 10"));
}

#[test]
fn test_remove_dbg() {
    let config = FilterConfig {
        remove_debug_prints: true,
        ..Default::default()
    };
    let filter = CodeFilter::new(config);

    let code = r#"
fn main() {
    let x = 5;
    dbg!(x);
    let y = 10;
}
"#;

    let filtered = filter.filter(code, Path::new("test.rs"));
    assert!(!filtered.contains("dbg!"));
    assert!(filtered.contains("let x = 5"));
}

#[test]
fn presets_set_their_flags() {
    let d = FilterConfig::default();
    assert_eq!(
        (
            d.remove_tests,
            d.remove_doc_comments,
            d.remove_comments,
            d.remove_blank_lines,
            d.preserve_headers,
            d.remove_debug_prints
        ),
        (true, false, false, true, true, false)
    );
    let m = FilterConfig::minimal();
    assert_eq!(
        (
            m.remove_tests,
            m.remove_doc_comments,
            m.remove_comments,
            m.remove_blank_lines,
            m.preserve_headers,
            m.remove_debug_prints
        ),
        (true, true, true, true, false, true)
    );
    let p = FilterConfig::preserve_docs();
    assert_eq!(
        (
            p.remove_tests,
            p.remove_doc_comments,
            p.remove_comments,
            p.remove_blank_lines,
            p.preserve_headers,
            p.remove_debug_prints
        ),
        (true, false, true, true, true, false)
    );
    let r = FilterConfig::production();
    assert_eq!(
        (
            r.remove_tests,
            r.remove_doc_comments,
            r.remove_comments,
            r.remove_blank_lines,
            r.preserve_headers,
            r.remove_debug_prints
        ),
        (true, false, false, true, true, true)
    );
}

#[test]
fn file_filter_config_setters_replace_their_list() {
    let config = FileFilterConfig::new();
    assert!(config.exclude_files.is_empty());
    assert!(config.exclude_all_files_except.is_empty());
    assert!(config.exclude_directories.is_empty());
    let config = FileFilterConfig::default()
        .exclude_files(vec!["*.lock".to_string()])
        .exclude_directories(vec!["**/target".to_string(), "**/out".to_string()])
        .allow_only(vec!["*.rs".to_string()]);
    assert_eq!(config.exclude_files, vec!["*.lock"]);
    assert_eq!(config.exclude_directories, vec!["**/target", "**/out"]);
    assert_eq!(config.exclude_all_files_except, vec!["*.rs"]);
    let config = config.exclude_files(vec![]);
    assert!(config.exclude_files.is_empty());
    assert_eq!(config.exclude_all_files_except, vec!["*.rs"]);
}

#[test]
fn rust_filter_gives_the_exact_lines() {
    let filter = CodeFilter::new(FilterConfig::default());
    let code = "\nfn production_code() {}\n\n#[test]\nfn test_something() {\n    assert_eq!(1, 1);\n}\n\nfn more_production() {}\n";
    assert_eq!(
        filter.filter_as(code, "rs"),
        "fn production_code() {}\nfn more_production() {}"
    );

    let filter = CodeFilter::new(FilterConfig::minimal());
    let code = "/// doc\n//! inner\n// plain\n/* block\n still */\n/** docblock\n end */\nlet a = 1; // tail\nlet s = \"a // b\"; // c\nprintln!(\"x\");\neprintln!(\n  \"y\"\n);\nlet b = 2;\n";
    assert_eq!(filter.filter_as(code, "rs"), "let a = 1;\nlet s = \"a // b\";\nlet b = 2;");
}

#[test]
fn rust_filter_keeps_what_the_configuration_keeps() {
    let keep_all = FilterConfig {
        remove_tests: false,
        remove_doc_comments: false,
        remove_comments: false,
        remove_blank_lines: false,
        preserve_headers: true,
        remove_debug_prints: false,
    };
    let code = "// c\n\n#[test]\nfn t() {}\n/* b */\nprintln!(\"x\");\r\nlast";
    assert_eq!(
        CodeFilter::new(keep_all).filter_as(code, "rs"),
        "// c\n\n#[test]\nfn t() {}\n/* b */\nprintln!(\"x\");\nlast"
    );
    // A doc block's closing line counts as a plain comment.
    let docs_only = FilterConfig { remove_doc_comments: true, ..keep_all };
    assert_eq!(
        CodeFilter::new(docs_only).filter_as("/** a\n b\n c */\nx", "rs"),
        " c */\nx"
    );
}

#[test]
fn rust_test_block_ends_when_its_braces_close() {
    let filter = CodeFilter::new(FilterConfig::default());
    let code = "#[cfg(test)]\nmod tests {\n    fn a() {\n    }\n}\nfn after() {}";
    assert_eq!(filter.filter_as(code, "rs"), "fn after() {}");
    let code = "#[test]\nfn t() { if x { y } }\nfn kept() {}";
    assert_eq!(filter.filter_as(code, "rs"), "fn kept() {}");
}

#[test]
fn python_filter_gives_the_exact_lines() {
    let filter = CodeFilter::new(FilterConfig::default());
    let code = "\ndef production_function():\n    pass\n\ndef test_something():\n    assert True\n\ndef another_production():\n    pass\n";
    assert_eq!(
        filter.filter_as(code, "py"),
        "def production_function():\n    pass\ndef another_production():\n    pass"
    );
    // A decorator opens a test that the next line at its depth ends.
    let code = "class A:\n    @pytest.fixture\n    def helper(self):\n        return 1\n    def test_it(self):\n        assert 1\n\n        more()\n    def real(self):\n        return 2\n";
    assert_eq!(
        filter.filter_as(code, "py"),
        "class A:\n    def helper(self):\n        return 1\n    def real(self):\n        return 2"
    );
    let minimal = CodeFilter::new(FilterConfig::minimal());
    let code = "# note\n\"\"\"\ndoc\n\"\"\"\nx = 1  # kept tail\n'''one'''\nhidden\n'''\ny = 2";
    assert_eq!(minimal.filter_as(code, "py"), "x = 1  # kept tail\ny = 2");
}

#[test]
fn javascript_filter_gives_the_exact_lines() {
    let minimal = CodeFilter::new(FilterConfig::minimal());
    let code = "// top\n/** doc\n * more\n */\n/* plain */\nconst a = 1; // tail\n\nconst u = \"http://x\"; // t\n/// triple\nend();";
    let expected = "const a = 1;\nconst u = \"http://x\";\nend();";
    for ext in ["js", "ts", "jsx", "tsx", "go", "c", "cpp", "cc", "h", "hpp"] {
        assert_eq!(minimal.filter_as(code, ext), expected, "{}", ext);
    }
    let default = CodeFilter::new(FilterConfig::default());
    assert_eq!(
        default.filter_as("// top\n\nconst a = 1; // tail", "js"),
        "// top\nconst a = 1; // tail"
    );
}

#[test]
fn java_filter_gives_the_exact_lines() {
    let filter = CodeFilter::new(FilterConfig::default());
    let code = "class A {\n    @Test\n    void t() {\n        x();\n    }\n    void real() { }\n\n    void other() {}\n}";
    // The marked method is skipped up to the first line whose braces balance.
    assert_eq!(filter.filter_as(code, "java"), "class A {\n    void other() {}\n}");
    let minimal = CodeFilter::new(FilterConfig::minimal());
    let code = "// c\n/** d */\n/* p\n q */\nint a; // tail\n@BeforeEach\nvoid s() {}\nint b;";
    for ext in ["java", "kt"] {
        assert_eq!(minimal.filter_as(code, ext), "int a; // tail\nint b;", "{}", ext);
    }
}

#[test]
fn unknown_extension_leaves_the_content_as_it_is() {
    let filter = CodeFilter::new(FilterConfig::minimal());
    let code = "// comment\n\n#[test]\r\nkeep\n";
    for ext in ["", "txt", "RS", "rss", "md", "json"] {
        assert_eq!(filter.filter_as(code, ext), code);
    }
    assert_eq!(filter.filter(code, Path::new("notes.txt")), code);
    assert_eq!(filter.filter(code, Path::new("Makefile")), code);
    // A test attribute opens a block that only closing braces end.
    assert_eq!(filter.filter(code, Path::new("src/lib.rs")), "");
    let code = "// comment\n\nkeep\r\n";
    assert_eq!(filter.filter(code, Path::new("src/lib.rs")), "keep");
    assert_eq!(filter.filter(code, Path::new("src/lib.rs")), filter.filter_as(code, "rs"));
}

#[test]
fn comment_start_skips_slashes_in_strings() {
    assert_eq!(find_comment_start(&chars("a // b")), 2);
    assert_eq!(find_comment_start(&chars("\"//\" // b")), 5);
    assert_eq!(find_comment_start(&chars("\"a\\\"//\" x")), 9);
    assert_eq!(find_comment_start(&chars("no comment / here")), 17);
    assert_eq!(find_comment_start(&chars("")), 0);
    assert_eq!(find_comment_start(&chars("//")), 0);
    assert_eq!(find_comment_start(&chars("x /")), 3);
}

#[test]
fn strip_comment_cuts_the_comment_and_the_space_before_it() {
    assert_eq!(strip_comment(&chars("let a = 1;   // tail")), "let a = 1;");
    assert_eq!(strip_comment(&chars("let a = 1;")), "let a = 1;");
    assert_eq!(strip_comment(&chars("  // only")), "");
    assert_eq!(strip_comment(&chars("é = \"ü//\"; // ß")), "é = \"ü//\";");
    assert_eq!(strip_comment(&chars("trailing  ")), "trailing  ");
}

fn flags(c: &FilterConfig) -> (bool, bool, bool, bool, bool, bool) {
    (
        c.remove_tests,
        c.remove_doc_comments,
        c.remove_comments,
        c.remove_blank_lines,
        c.preserve_headers,
        c.remove_debug_prints,
    )
}

#[test]
fn language_filters_hand_out_the_configuration_they_were_made_with() {
    for config in [
        FilterConfig::default(),
        FilterConfig::minimal(),
        FilterConfig::preserve_docs(),
        FilterConfig::production(),
    ] {
        assert_eq!(flags(RustFilter::new(&config).config()), flags(&config));
        assert_eq!(flags(PythonFilter::new(&config).config()), flags(&config));
        assert_eq!(flags(JavaScriptFilter::new(&config).config()), flags(&config));
        assert_eq!(flags(GoFilter::new(&config).config()), flags(&config));
        assert_eq!(flags(JavaFilter::new(&config).config()), flags(&config));
        assert_eq!(flags(CFilter::new(&config).config()), flags(&config));
    }
}
