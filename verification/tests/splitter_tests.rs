use llm_utl::error::Error;
use llm_utl::file::FileContent;
use llm_utl::file::FileData;
use llm_utl::splitter::lines_for_budget;
use llm_utl::splitter::part_label_string;
use llm_utl::splitter::Chunk;
use llm_utl::splitter::ChunkBuilder;
use llm_utl::splitter::Splitter;
use llm_utl::token::SimpleTokenizer;
use llm_utl::token::TokenEstimator;
use llm_utl::token::Tokenizer;
use llm_utl::token::TokenizerKind;
use std::path::PathBuf;

/// A splitter as the default configuration makes it from `max_tokens`: a
/// safety margin of 2000 tokens off the capacity, 100 tokens of overlap.
fn create_test_splitter(max_tokens: usize) -> Splitter<Tokenizer> {
    Splitter::new(max_tokens.saturating_sub(2000), 100, true, TokenizerKind::Simple.create())
}

fn text_file(name: &str, content: &str, tokens: usize) -> FileData {
    FileData::new_text(PathBuf::from(name), name.to_string(), content.to_string(), tokens)
}

fn names(chunk: &Chunk) -> Vec<String> {
    chunk.files.iter().map(|f| f.relative_path.clone()).collect()
}

fn text_of(file: &FileData) -> String {
    file.content_str().unwrap().to_string()
}

#[test]
fn test_splitter_single_file() {
    let splitter = create_test_splitter(3000);

    let files = vec![FileData::new_text(
        PathBuf::from("test.rs"),
        "test.rs".to_string(),
        "fn main() {}".to_string(),
        300,
    )];

    let chunks = splitter.split(files).unwrap();

    assert_eq!(chunks.len(), 1);
    assert_eq!(chunks[0].files.len(), 1);
    assert_eq!(chunks[0].total_tokens, 300);
}

#[test]
fn test_splitter_multiple_files_single_chunk() {
    let splitter = create_test_splitter(3000);

    let files = vec![
        FileData::new_text(
            PathBuf::from("file1.rs"),
            "file1.rs".to_string(),
            "fn main() {}".to_string(),
            300,
        ),
        FileData::new_text(
            PathBuf::from("file2.rs"),
            "file2.rs".to_string(),
            "pub fn test() {}".to_string(),
            300,
        ),
    ];

    let chunks = splitter.split(files).unwrap();

    assert_eq!(chunks.len(), 1);
    assert_eq!(chunks[0].files.len(), 2);
    assert_eq!(chunks[0].total_tokens, 600);
}

#[test]
fn test_splitter_multiple_chunks() {
    let splitter = create_test_splitter(2500);

    let files = vec![
        FileData::new_text(
            PathBuf::from("file1.rs"),
            "file1.rs".to_string(),
            "fn main() {}".to_string(),
            300,
        ),
        FileData::new_text(
            PathBuf::from("file2.rs"),
            "file2.rs".to_string(),
            "pub fn test() {}".to_string(),
            300,
        ),
    ];

    let chunks = splitter.split(files).unwrap();

    assert_eq!(chunks.len(), 2);
    assert_eq!(chunks[0].files.len(), 1);
    assert_eq!(chunks[1].files.len(), 1);
}

#[test]
fn test_splitter_large_file() {
    let max_tokens: usize = 2500;
    let splitter = create_test_splitter(max_tokens);

    let large_content = (0..1000)
        .map(|i| format!("fn function_{}() {{}}", i))
        .collect::<Vec<_>>()
        .join("\n");

    let files = vec![FileData::new_text(
        PathBuf::from("large.rs"),
        "large.rs".to_string(),
        large_content.clone(),
        3000, // Exceeds limit
    )];

    let chunks = splitter.split(files).unwrap();

    assert!(chunks.len() > 1, "Large file should be split");

    // Check all parts
    for chunk in &chunks {
        assert_eq!(chunk.files.len(), 1);
        assert!(chunk.total_tokens <= max_tokens, "Chunk {} exceeds max tokens", chunk.index);
    }
}

#[test]
fn test_splitter_empty_files() {
    let splitter = create_test_splitter(3000);

    let chunks = splitter.split(vec![]).unwrap();
    assert!(chunks.is_empty());
}

#[test]
fn test_splitter_binary_file_too_large() {
    let splitter = create_test_splitter(2500);

    let files = vec![FileData::new_binary(
        PathBuf::from("large.bin"),
        "large.bin".to_string(),
        10000,
    )];

    // Override token count to exceed limit
    let mut files = files;
    files[0].token_count = 1000;

    let result = splitter.split(files);
    assert!(result.is_err());
}

#[test]
fn two_files_that_fit_together_share_one_chunk() {
    let splitter = Splitter::new(1000, 0, true, SimpleTokenizer);
    let chunks = splitter
        .split(vec![text_file("a.rs", "fn a() {}", 300), text_file("b.rs", "fn b() {}", 300)])
        .unwrap();
    assert_eq!(chunks.len(), 1);
    assert_eq!(chunks[0].index, 0);
    assert_eq!(chunks[0].files.len(), 2);
    assert_eq!(chunks[0].total_tokens, 600);
    assert_eq!(names(&chunks[0]), vec!["a.rs", "b.rs"]);
}

#[test]
fn two_files_that_do_not_fit_together_get_indices_0_and_1() {
    let splitter = Splitter::new(500, 0, true, SimpleTokenizer);
    let chunks = splitter
        .split(vec![text_file("a.rs", "fn a() {}", 300), text_file("b.rs", "fn b() {}", 300)])
        .unwrap();
    assert_eq!(chunks.len(), 2);
    assert_eq!(chunks[0].index, 0);
    assert_eq!(chunks[1].index, 1);
    assert_eq!(names(&chunks[0]), vec!["a.rs"]);
    assert_eq!(names(&chunks[1]), vec!["b.rs"]);
    assert_eq!(chunks[0].total_tokens, 300);
    assert_eq!(chunks[1].total_tokens, 300);
}

#[test]
fn large_file_becomes_labelled_single_file_chunks() {
    let splitter = Splitter::new(500, 100, true, SimpleTokenizer);
    let lines: Vec<String> = (0..1000).map(|i| format!("fn function_{}() {{}}", i)).collect();
    let content = lines.join("\n");
    let chunks = splitter.split(vec![text_file("large.rs", &content, 3000)]).unwrap();

    // The first 100 lines take 498 tokens: 100 lines to a part, 20 of
    // overlap, so a part starts every 80 lines and 13 parts are planned.
    assert_eq!(chunks.len(), 13);
    for (k, chunk) in chunks.iter().enumerate() {
        assert_eq!(chunk.index, k);
        assert_eq!(chunk.files.len(), 1);
        let part = &chunk.files[0];
        assert_eq!(part.relative_path, format!("large.rs [Part {}/13]", k + 1));
        assert_eq!(part.absolute_path, PathBuf::from("large.rs"));
        let start = k * 80;
        let end = (start + 100).min(1000);
        let expected = lines[start..end].join("\n");
        assert_eq!(text_of(part), expected);
        assert_eq!(part.token_count, SimpleTokenizer.estimate(&expected));
        assert_eq!(chunk.total_tokens, part.token_count);
    }
    assert_eq!(chunks[0].total_tokens, 498);
}

#[test]
fn adjacent_parts_share_the_overlap_lines() {
    let splitter = Splitter::new(10, 4, true, SimpleTokenizer);
    // Ten lines of seven characters: 79 characters, 20 tokens in the
    // sample, two tokens a line: 5 lines to a part, 2 of overlap.
    let lines: Vec<String> = (0..10).map(|i| format!("line {:02}", i)).collect();
    let content = lines.join("\n");
    let chunks = splitter.split(vec![text_file("f.txt", &content, 50)]).unwrap();
    let parts: Vec<String> = chunks.iter().map(|c| text_of(&c.files[0])).collect();
    assert_eq!(
        parts,
        vec![lines[0..5].join("\n"), lines[3..8].join("\n"), lines[6..10].join("\n")]
    );
    let labels: Vec<String> = chunks.iter().map(|c| c.files[0].relative_path.clone()).collect();
    assert_eq!(labels, vec!["f.txt [Part 1/4]", "f.txt [Part 2/4]", "f.txt [Part 3/4]"]);
}

#[test]
fn part_over_the_capacity_is_still_emitted() {
    let splitter = Splitter::new(5, 0, true, SimpleTokenizer);
    // The sample is cheap, the long line behind it is not.
    let long = "x".repeat(400);
    let content = format!("a\nb\n{}", long);
    let chunks = splitter.split(vec![text_file("f.txt", &content, 200)]).unwrap();
    let total: usize = chunks.iter().map(|c| c.files.len()).sum();
    assert_eq!(total, chunks.len());
    assert!(chunks.iter().any(|c| c.total_tokens > 5));
    let all: Vec<String> = chunks.iter().map(|c| text_of(&c.files[0])).collect();
    assert_eq!(all.join("\n"), content);
}

#[test]
fn large_file_without_lines_is_its_own_part() {
    let splitter = Splitter::new(10, 2, true, SimpleTokenizer);
    let chunks = splitter.split(vec![text_file("empty.txt", "", 50)]).unwrap();
    assert_eq!(chunks.len(), 1);
    assert_eq!(chunks[0].files.len(), 1);
    assert_eq!(chunks[0].files[0].relative_path, "empty.txt");
    assert_eq!(chunks[0].files[0].token_count, 50);
    assert_eq!(chunks[0].total_tokens, 50);
}

#[test]
fn large_file_closes_the_open_chunk_and_later_files_start_a_new_one() {
    let splitter = Splitter::new(10, 0, true, SimpleTokenizer);
    let big = (0..6).map(|i| format!("row {}", i)).collect::<Vec<_>>().join("\n");
    let chunks = splitter
        .split(vec![
            text_file("a", "a", 4),
            text_file("b", "b", 4),
            text_file("big", &big, 40),
            text_file("c", "c", 3),
            text_file("d", "d", 3),
        ])
        .unwrap();
    for (i, chunk) in chunks.iter().enumerate() {
        assert_eq!(chunk.index, i);
        assert!(!chunk.is_empty());
        let sum: usize = chunk.files.iter().map(|f| f.token_count).sum();
        assert_eq!(chunk.total_tokens, sum);
    }
    assert_eq!(names(&chunks[0]), vec!["a", "b"]);
    let last = chunks.last().unwrap();
    assert_eq!(names(last), vec!["c", "d"]);
    for chunk in &chunks[1..chunks.len() - 1] {
        assert_eq!(chunk.files.len(), 1);
        assert!(chunk.files[0].relative_path.starts_with("big [Part "));
    }
}

#[test]
fn binary_file_over_the_capacity_fails_with_file_too_large() {
    let splitter = Splitter::new(2500, 100, true, SimpleTokenizer);
    let mut binary = FileData::new_binary(PathBuf::from("/abs/big.bin"), "big.bin".to_string(), 1);
    binary.token_count = 10_000;
    let result = splitter.split(vec![text_file("a.rs", "fn a() {}", 300), binary]);
    match result {
        Err(Error::FileTooLarge { path, size, limit }) => {
            assert_eq!(path, PathBuf::from("/abs/big.bin"));
            assert_eq!(size, 10_000);
            assert_eq!(limit, 2500);
        }
        other => panic!("expected FileTooLarge, got {:?}", other),
    }
}

#[test]
fn failure_names_the_first_binary_file_over_the_capacity() {
    let splitter = Splitter::new(100, 0, true, SimpleTokenizer);
    let mut first = FileData::new_binary(PathBuf::from("one.bin"), "one.bin".to_string(), 1);
    first.token_count = 101;
    let mut second = FileData::new_binary(PathBuf::from("two.bin"), "two.bin".to_string(), 1);
    second.token_count = 5000;
    match splitter.split(vec![text_file("a", "a", 1), first, second]) {
        Err(Error::FileTooLarge { path, size, limit }) => {
            assert_eq!(path, PathBuf::from("one.bin"));
            assert_eq!(size, 101);
            assert_eq!(limit, 100);
        }
        other => panic!("expected FileTooLarge, got {:?}", other),
    }
}

#[test]
fn binary_file_within_the_capacity_is_packed_like_any_file() {
    let splitter = Splitter::new(100, 0, true, SimpleTokenizer);
    let mut binary = FileData::new_binary(PathBuf::from("b.bin"), "b.bin".to_string(), 9999);
    binary.token_count = 100;
    let chunks = splitter
        .split(vec![
            FileData::new_binary(PathBuf::from("z.bin"), "z.bin".to_string(), 1 << 40),
            binary,
            text_file("a", "a", 1),
        ])
        .unwrap();
    assert_eq!(chunks.len(), 2);
    assert_eq!(names(&chunks[0]), vec!["z.bin", "b.bin"]);
    assert_eq!(chunks[0].total_tokens, 100);
    assert_eq!(names(&chunks[1]), vec!["a"]);
    assert!(matches!(chunks[0].files[0].content, FileContent::Binary { size } if size == 1 << 40));
}

#[test]
fn file_of_exactly_the_capacity_is_not_split() {
    let splitter = Splitter::new(300, 0, true, SimpleTokenizer);
    let chunks = splitter
        .split(vec![text_file("a", "l1\nl2\nl3", 300), text_file("b", "x", 1)])
        .unwrap();
    assert_eq!(chunks.len(), 2);
    assert_eq!(names(&chunks[0]), vec!["a"]);
    assert_eq!(text_of(&chunks[0].files[0]), "l1\nl2\nl3");
    assert_eq!(names(&chunks[1]), vec!["b"]);
}

#[test]
fn files_that_fit_come_out_unchanged_and_in_order() {
    let splitter = Splitter::new(10, 3, true, SimpleTokenizer);
    let counts = [3usize, 4, 3, 1, 10, 0, 9, 2, 2, 2, 2, 2, 5];
    let files: Vec<FileData> = counts
        .iter()
        .enumerate()
        .map(|(i, &n)| text_file(&format!("f{}", i), &format!("body {}\nmore", i), n))
        .collect();
    let chunks = splitter.split(files.clone()).unwrap();
    let mut seen = Vec::new();
    for (i, chunk) in chunks.iter().enumerate() {
        assert_eq!(chunk.index, i);
        assert!(chunk.file_count() >= 1);
        assert!(chunk.total_tokens <= 10);
        let sum: usize = chunk.files.iter().map(|f| f.token_count).sum();
        assert_eq!(chunk.total_tokens, sum);
        for f in &chunk.files {
            seen.push((f.relative_path.clone(), text_of(f), f.token_count));
        }
    }
    let given: Vec<(String, String, usize)> =
        files.iter().map(|f| (f.relative_path.clone(), text_of(f), f.token_count)).collect();
    assert_eq!(seen, given);
    let sizes: Vec<usize> = chunks.iter().map(|c| c.files.len()).collect();
    // A chunk is closed only before a file that it has no room for.
    for pair in chunks.windows(2) {
        assert!(pair[0].total_tokens + pair[1].files[0].token_count > 10);
    }
    // 3+4+3 | 1 | 10+0 | 9 | 2+2+2+2+2 | 5
    assert_eq!(sizes, vec![3, 1, 2, 1, 5, 1]);
}

#[test]
fn splitting_twice_gives_the_same_chunks() {
    let splitter = Splitter::new(50, 10, true, TokenizerKind::Enhanced.create());
    let big: String = (0..200).map(|i| format!("let v{} = {};\n", i, i * 7)).collect();
    let files = vec![
        text_file("a", "alpha", 20),
        text_file("big", &big, 900),
        text_file("b", "beta", 30),
        text_file("c", "gamma", 30),
    ];
    let first = splitter.split(files.clone()).unwrap();
    let second = splitter.split(files).unwrap();
    assert_eq!(first.len(), second.len());
    for (a, b) in first.iter().zip(second.iter()) {
        assert_eq!(a.index, b.index);
        assert_eq!(a.total_tokens, b.total_tokens);
        assert_eq!(names(a), names(b));
        let ta: Vec<String> = a.files.iter().map(text_of).collect();
        let tb: Vec<String> = b.files.iter().map(text_of).collect();
        assert_eq!(ta, tb);
    }
}

#[test]
fn overlap_is_at_most_half_a_part() {
    let lines: Vec<String> = (0..300).map(|i| format!("value number {}", i)).collect();
    for (max, overlap) in [(1usize, 0usize), (1, 50), (7, 7), (40, 1000), (500, 100), (3, 2)] {
        let splitter = Splitter::new(max, overlap, true, SimpleTokenizer);
        let params = splitter.calculate_split_parameters(&lines, 0);
        assert!(params.lines_per_chunk >= 1);
        assert!(params.overlap_lines <= params.lines_per_chunk / 2);
    }
}

#[test]
fn split_parameters_follow_the_sample() {
    // 100 lines of 3 characters and 99 line feeds: 399 characters, 100 tokens.
    let lines: Vec<String> = (0..250).map(|_| "abc".to_string()).collect();
    let splitter = Splitter::new(60, 20, true, SimpleTokenizer);
    let params = splitter.calculate_split_parameters(&lines, 0);
    assert_eq!(params.lines_per_chunk, 60);
    assert_eq!(params.overlap_lines, 20);
    assert_eq!(params.estimated_parts, 7); // ceil(250 / 40)

    // 100 lines of 11 characters and 99 line feeds: 1199 characters, 300 tokens.
    let lines: Vec<String> = (0..1000).map(|_| "abcdefghijk".to_string()).collect();
    let splitter = Splitter::new(500, 100, true, SimpleTokenizer);
    let params = splitter.calculate_split_parameters(&lines, 0);
    assert_eq!(params.lines_per_chunk, 166); // 500 * 100 / 300
    assert_eq!(params.overlap_lines, 33); // 100 * 100 / 300
    assert_eq!(params.estimated_parts, 8); // ceil(1000 / 133)

    // A part holds one line at least, and then nothing overlaps.
    let splitter = Splitter::new(1, 100, true, SimpleTokenizer);
    let params = splitter.calculate_split_parameters(&lines, 0);
    assert_eq!(params.lines_per_chunk, 1);
    assert_eq!(params.overlap_lines, 0);
    assert_eq!(params.estimated_parts, 1000);
}

#[test]
fn budget_buys_lines_at_the_sampled_rate() {
    assert_eq!(lines_for_budget(500, 300, 100), 166);
    assert_eq!(lines_for_budget(500, 100, 100), 500);
    assert_eq!(lines_for_budget(500, 40, 100), 500);
    assert_eq!(lines_for_budget(500, 7, 0), 500);
    assert_eq!(lines_for_budget(0, 300, 100), 0);
    assert_eq!(lines_for_budget(usize::MAX, 200, 100), usize::MAX / 2);
}

#[test]
fn part_label_names_the_part_and_the_plan() {
    assert_eq!(part_label_string("src/main.rs", 1, 3), "src/main.rs [Part 1/3]");
    assert_eq!(part_label_string("a", 12, 120), "a [Part 12/120]");
    assert_eq!(part_label_string("", 0, 0), " [Part 0/0]");
}

#[test]
fn builder_yields_a_chunk_only_when_it_holds_a_file() {
    let builder = ChunkBuilder::new(4, 100);
    assert!(builder.build().is_none());

    let mut builder = ChunkBuilder::new(4, 100);
    assert!(builder.can_fit(100));
    assert!(!builder.can_fit(101));
    builder.add_file(text_file("a", "a", 60));
    assert!(builder.can_fit(40));
    assert!(!builder.can_fit(41));
    assert!(!builder.can_fit(usize::MAX));
    builder.add_file(text_file("b", "b", 40));
    let chunk = builder.build().unwrap();
    assert_eq!(chunk.index, 4);
    assert_eq!(chunk.total_tokens, 100);
    assert_eq!(chunk.file_count(), 2);
    assert!(!chunk.is_empty());
}

#[test]
fn chunk_new_keeps_what_it_is_given() {
    let chunk = Chunk::new(7, vec![], 500);
    assert_eq!(chunk.index, 7);
    assert_eq!(chunk.total_tokens, 500);
    assert_eq!(chunk.file_count(), 0);
    assert!(chunk.is_empty());
}
