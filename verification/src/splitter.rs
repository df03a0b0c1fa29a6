//! The chunking engine: packs file records into chunks under a token
//! ceiling and slices a file that alone exceeds it into overlapping parts.

use vstd::prelude::*;
use vstd::string::StringExecFns;
use crate::error::Error;
use crate::file::ContentView;
use crate::file::FileContent;
use crate::file::FileData;
use crate::file::FileView;
use crate::text::decimal;
use crate::text::decimal_string;
use crate::text::join_lines;
use crate::text::join_range;
use crate::text::lines_of;
use crate::text::split_lines;
use crate::text::texts;
use crate::token::TokenEstimator;

verus! {

/// The views of a sequence of file records.
pub open spec fn file_views(files: Seq<FileData>) -> Seq<FileView> {
    Seq::new(files.len(), |i: int| files[i]@)
}

/// The sum of the token counts of `files`.
pub open spec fn token_sum(files: Seq<FileView>) -> nat
    decreases files.len(),
{
    if files.len() == 0 {
        0
    } else {
        token_sum(files.drop_last()) + files.last().token_count
    }
}

/// Represents a chunk of files with associated metadata.
#[derive(Debug, Clone)]
pub struct Chunk {
    /// Sequential chunk index (0-based)
    pub index: usize,
    /// Files included in this chunk
    pub files: Vec<FileData>,
    /// Total token count across all files
    pub total_tokens: usize,
}

/// What a [`Chunk`] holds.
pub struct ChunkView {
    pub index: nat,
    pub files: Seq<FileView>,
    pub total_tokens: nat,
}

impl View for Chunk {
    type V = ChunkView;

    open spec fn view(&self) -> ChunkView {
        ChunkView {
            index: self.index as nat,
            files: file_views(self.files@),
            total_tokens: self.total_tokens as nat,
        }
    }
}

impl Chunk {
    /// Creates a new chunk.
    #[must_use]
    pub fn new(index: usize, files: Vec<FileData>, total_tokens: usize) -> (chunk: Self)
        ensures
            chunk == (Chunk { index, files, total_tokens }),
    {
        Self { index, files, total_tokens }
    }

    /// Returns the number of files in this chunk.
    #[must_use]
    pub fn file_count(&self) -> (count: usize)
        ensures
            count == self.files@.len(),
    {
        self.files.len()
    }

    /// Returns true if this chunk is empty.
    #[must_use]
    pub fn is_empty(&self) -> (empty: bool)
        ensures
            empty == (self.files@.len() == 0),
    {
        self.files.len() == 0
    }
}

/// Builder for constructing chunks incrementally.
pub struct ChunkBuilder {
    /// The index that the chunk will carry.
    pub index: usize,
    /// The files admitted so far.
    pub files: Vec<FileData>,
    /// The sum of the token counts of the files admitted so far.
    pub current_tokens: usize,
    /// The capacity of the chunk.
    pub max_tokens: usize,
}

impl ChunkBuilder {
    /// The running total is the sum over the files admitted so far.
    pub open spec fn well_formed(&self) -> bool {
        self.current_tokens == token_sum(file_views(self.files@))
    }

    /// Creates a new chunk builder.
    pub fn new(index: usize, max_tokens: usize) -> (builder: Self)
        ensures
            builder.index == index,
            builder.max_tokens == max_tokens,
            builder.current_tokens == 0,
            builder.files@.len() == 0,
            builder.well_formed(),
    {
        Self { index, files: Vec::new(), current_tokens: 0, max_tokens }
    }

    /// Checks if a file can fit in the current chunk.
    pub fn can_fit(&self, tokens: usize) -> (fits: bool)
        ensures
            fits == (self.current_tokens + tokens <= self.max_tokens),
    {
        self.current_tokens <= self.max_tokens && tokens <= self.max_tokens - self.current_tokens
    }

    /// Adds a file to the chunk.
    pub fn add_file(&mut self, file: FileData)
        requires
            old(self).current_tokens + file.token_count <= usize::MAX,
        ensures
            final(self).index == old(self).index,
            final(self).max_tokens == old(self).max_tokens,
            final(self).files@ == old(self).files@.push(file),
            final(self).current_tokens == old(self).current_tokens + file.token_count,
            old(self).well_formed() ==> final(self).well_formed(),
    {
        proof {
            let before = file_views(self.files@);
            let after = file_views(self.files@.push(file));
            assert(after.drop_last() == before);
        }
        self.current_tokens += file.token_count;
        self.files.push(file);
    }

    /// Builds the final chunk if not empty.
    pub fn build(self) -> (chunk: Option<Chunk>)
        ensures
            chunk == if self.files@.len() == 0 {
                None
            } else {
                Some(Chunk { index: self.index, files: self.files, total_tokens: self.current_tokens })
            },
    {
        if self.files.len() == 0 {
            None
        } else {
            Some(Chunk::new(self.index, self.files, self.current_tokens))
        }
    }
}

/// How many of a file's first lines are sampled to estimate its tokens per line.
pub const SAMPLE_LINES: usize = 100;

/// Parameters for splitting a large file.
#[derive(Debug)]
pub struct SplitParameters {
    /// Lines in each part but the last, which may hold fewer.
    pub lines_per_chunk: usize,
    /// Lines at the end of a part that the next part repeats.
    pub overlap_lines: usize,
    /// The planned number of parts, shown in each part's label.
    pub estimated_parts: usize,
}

/// How many lines a budget of tokens buys, when `sample_lines` lines took
/// `sample_tokens` tokens and a line is taken to cost one token at least:
/// the budget divided by `max(sample_tokens / sample_lines, 1)`, rounded
/// down.
pub open spec fn lines_for(budget: nat, sample_tokens: nat, sample_lines: nat) -> nat {
    if sample_lines == 0 || sample_tokens <= sample_lines {
        budget
    } else {
        budget * sample_lines / sample_tokens
    }
}

/// Lines per part: what the capacity buys, and one line at least.
pub open spec fn planned_lines(max_tokens: nat, sample_tokens: nat, sample_lines: nat) -> nat {
    let lines = lines_for(max_tokens, sample_tokens, sample_lines);
    if lines < 1 {
        1
    } else {
        lines
    }
}

/// Lines of overlap: what the overlap budget buys, and half a part at most.
pub open spec fn planned_overlap(
    overlap_tokens: nat,
    lines_per_chunk: nat,
    sample_tokens: nat,
    sample_lines: nat,
) -> nat {
    let lines = lines_for(overlap_tokens, sample_tokens, sample_lines);
    if lines < lines_per_chunk / 2 {
        lines
    } else {
        lines_per_chunk / 2
    }
}

/// The planned number of parts: the lines divided by the advance from one
/// part to the next, rounded up.
pub open spec fn planned_parts(total_lines: nat, lines_per_chunk: nat, overlap_lines: nat) -> nat {
    ((total_lines + lines_per_chunk - overlap_lines - 1) / (lines_per_chunk - overlap_lines)) as nat
}

/// A budget scaled by a ratio below one stays within the budget.
proof fn lemma_scaled_budget(budget: nat, sample_tokens: nat, sample_lines: nat)
    requires
        0 < sample_lines < sample_tokens,
    ensures
        budget * sample_lines / sample_tokens <= budget,
{
    assert(budget * sample_lines <= budget * sample_tokens) by (nonlinear_arith)
        requires
            sample_lines < sample_tokens,
    ;
    assert(budget * sample_lines / sample_tokens <= budget) by (nonlinear_arith)
        requires
            budget * sample_lines <= budget * sample_tokens,
            0 < sample_tokens,
    ;
}

/// There are no more planned parts than lines.
proof fn lemma_parts_bound(total_lines: nat, advance: nat)
    requires
        advance >= 1,
    ensures
        (total_lines + advance - 1) / (advance as int) <= total_lines,
{
    assert((total_lines + advance - 1) / (advance as int) <= total_lines) by (nonlinear_arith)
        requires
            advance >= 1,
            total_lines >= 0,
    ;
}

/// Computes [`lines_for`].
pub fn lines_for_budget(budget: usize, sample_tokens: usize, sample_lines: usize) -> (lines: usize)
    ensures
        lines == lines_for(budget as nat, sample_tokens as nat, sample_lines as nat),
        lines <= budget,
{
    if sample_lines == 0 || sample_tokens <= sample_lines {
        budget
    } else {
        proof {
            lemma_scaled_budget(budget as nat, sample_tokens as nat, sample_lines as nat);
            assert(budget * sample_lines <= 0xffff_ffff_ffff_ffff * 0xffff_ffff_ffff_ffff)
                by (nonlinear_arith)
                requires
                    budget <= 0xffff_ffff_ffff_ffff,
                    sample_lines <= 0xffff_ffff_ffff_ffff,
            ;
        }
        let product: u128 = (budget as u128) * (sample_lines as u128);
        (product / (sample_tokens as u128)) as usize
    }
}

/// The label of part `number` of `of` of the file called `name`.
pub open spec fn part_label(name: Seq<char>, number: nat, of: nat) -> Seq<char> {
    name + " [Part "@ + decimal(number) + "/"@ + decimal(of) + "]"@
}

/// Writes [`part_label`].
pub fn part_label_string(name: &str, number: usize, of: usize) -> (label: String)
    ensures
        label@ == part_label(name@, number as nat, of as nat),
{
    let mut label = name.to_owned();
    label.append(" [Part ");
    label.append(decimal_string(number).as_str());
    label.append("/");
    label.append(decimal_string(of).as_str());
    label.append("]");
    label
}

/// Into how many parts `total_lines` lines fall, when a part holds
/// `lines_per_chunk` lines and starts `advance` lines behind the one
/// before it: one, and one more for each advance that it takes until a
/// part reaches the last line.
pub open spec fn part_count(total_lines: nat, lines_per_chunk: nat, advance: nat) -> nat {
    if total_lines <= lines_per_chunk {
        1
    } else {
        ((total_lines - lines_per_chunk + advance - 1) / (advance as int) + 1) as nat
    }
}

/// The part that first reaches the last line is the last one counted.
proof fn lemma_last_part(total_lines: nat, lines_per_chunk: nat, advance: nat, k: nat)
    requires
        advance >= 1,
        lines_per_chunk >= 1,
        k * advance + lines_per_chunk >= total_lines,
        k >= 1 ==> (k - 1) * advance + lines_per_chunk < total_lines,
    ensures
        part_count(total_lines, lines_per_chunk, advance) == k + 1,
{
    if total_lines <= lines_per_chunk {
        if k >= 1 {
            assert((k - 1) * advance >= 0) by (nonlinear_arith)
                requires
                    k >= 1,
                    advance >= 1,
            ;
        }
    } else {
        let x = total_lines - lines_per_chunk;
        assert(k >= 1) by (nonlinear_arith)
            requires
                k * advance + lines_per_chunk >= total_lines,
                total_lines > lines_per_chunk,
                k >= 0,
        ;
        assert((x + advance - 1) / (advance as int) == k) by (nonlinear_arith)
            requires
                advance >= 1,
                (k - 1) * advance < x,
                x <= k * advance,
        ;
    }
}

/// A quotient rounded up is the least multiple that covers the dividend.
proof fn lemma_rounded_up(x: int, d: int)
    requires
        x > 0,
        d > 0,
    ensures
        ((x + d - 1) / d - 1) * d < x <= ((x + d - 1) / d) * d,
        (x + d - 1) / d >= 1,
{
    let m = (x + d - 1) / d;
    assert(m * d <= x + d - 1 < m * d + d) by (nonlinear_arith)
        requires
            m == (x + d - 1) / d,
            d > 0,
    ;
    assert((m - 1) * d == m * d - d) by (nonlinear_arith);
    assert(m >= 1) by (nonlinear_arith)
        requires
            x + d - 1 < m * d + d,
            x > 0,
            d > 0,
    ;
}

/// A packing under way: the groups of files that are closed, each one
/// chunk, and the files of the group that is still open.
pub struct Packing {
    pub closed: Seq<Seq<FileView>>,
    pub open: Seq<FileView>,
}

impl Packing {
    /// The groups once the open one is closed; an empty one makes no group.
    pub open spec fn flushed(self) -> Seq<Seq<FileView>> {
        if self.open.len() == 0 {
            self.closed
        } else {
            self.closed.push(self.open)
        }
    }
}

/// Each of `files` as a group of its own.
pub open spec fn singletons(files: Seq<FileView>) -> Seq<Seq<FileView>> {
    Seq::new(files.len(), |i: int| seq![files[i]])
}

/// The files of each of `chunks`.
pub open spec fn groups_of(chunks: Seq<Chunk>) -> Seq<Seq<FileView>> {
    Seq::new(chunks.len(), |i: int| file_views(chunks[i].files@))
}

/// The views of a sequence of chunks.
pub open spec fn chunk_views(chunks: Seq<Chunk>) -> Seq<ChunkView> {
    Seq::new(chunks.len(), |i: int| chunks[i]@)
}

/// Each chunk carries its position as its index and the sum of its files'
/// token counts as its total.
pub open spec fn numbered_and_summed(chunks: Seq<Chunk>) -> bool {
    forall|i: int|
        0 <= i < chunks.len() ==> {
            &&& (#[trigger] chunks[i]).index == i
            &&& chunks[i].total_tokens == token_sum(file_views(chunks[i].files@))
        }
}

/// The first position in `files` that `blocks` holds of, or `files.len()`
/// when it holds of none.
pub open spec fn first_where(files: Seq<FileView>, blocks: spec_fn(FileView) -> bool) -> int
    decreases files.len(),
{
    if files.len() == 0 {
        0
    } else if blocks(files[0]) {
        0
    } else {
        1 + first_where(files.drop_first(), blocks)
    }
}

/// The sum over one file is its token count.
proof fn lemma_token_sum_single(file: FileView)
    ensures
        token_sum(seq![file]) == file.token_count,
{
    assert(seq![file].drop_last() == Seq::<FileView>::empty());
    reveal_with_fuel(token_sum, 2);
}

/// The first position found is one, with none before it.
proof fn lemma_first_where_bounds(files: Seq<FileView>, blocks: spec_fn(FileView) -> bool)
    ensures
        0 <= first_where(files, blocks) <= files.len(),
        forall|j: int| 0 <= j < first_where(files, blocks) ==> !blocks(#[trigger] files[j]),
        first_where(files, blocks) < files.len() ==> blocks(files[first_where(files, blocks)]),
    decreases files.len(),
{
    if files.len() > 0 && !blocks(files[0]) {
        let rest = files.drop_first();
        lemma_first_where_bounds(rest, blocks);
        assert forall|j: int| 0 <= j < first_where(files, blocks) implies !blocks(
            #[trigger] files[j],
        ) by {
            if j > 0 {
                assert(files[j] == rest[j - 1]);
            }
        }
    }
}

/// The first position is where the property holds with none before it.
proof fn lemma_first_where_at(files: Seq<FileView>, blocks: spec_fn(FileView) -> bool, k: int)
    requires
        0 <= k <= files.len(),
        forall|j: int| 0 <= j < k ==> !blocks(#[trigger] files[j]),
        k < files.len() ==> blocks(files[k]),
    ensures
        first_where(files, blocks) == k,
    decreases files.len(),
{
    if files.len() > 0 && k > 0 {
        let rest = files.drop_first();
        assert forall|j: int| 0 <= j < k - 1 implies !blocks(#[trigger] rest[j]) by {
            assert(rest[j] == files[j + 1]);
        }
        lemma_first_where_at(rest, blocks, k - 1);
    }
}

/// Splits files into optimally-sized chunks based on token limits.
pub struct Splitter<E: TokenEstimator> {
    /// Capacity of a chunk in tokens, net of any safety margin.
    pub max_chunk_tokens: usize,
    /// Token budget for the lines that adjacent parts of a split file share.
    pub overlap_tokens: usize,
    /// Carried from the configuration; the slicing is by lines in any case.
    pub prefer_line_boundaries: bool,
    /// The estimator that measures the parts of a split file.
    pub tokenizer: E,
}

impl<E: TokenEstimator> Splitter<E> {
    /// Creates a new splitter.
    pub fn new(
        max_chunk_tokens: usize,
        overlap_tokens: usize,
        prefer_line_boundaries: bool,
        tokenizer: E,
    ) -> (splitter: Self)
        ensures
            splitter == (Splitter {
                max_chunk_tokens,
                overlap_tokens,
                prefer_line_boundaries,
                tokenizer,
            }),
    {
        Self { max_chunk_tokens, overlap_tokens, prefer_line_boundaries, tokenizer }
    }

    /// The estimate for the first lines of a file, as many as are sampled.
    pub open spec fn sample_tokens(&self, lines: Seq<Seq<char>>) -> nat {
        let sample = if lines.len() < SAMPLE_LINES {
            lines
        } else {
            lines.take(SAMPLE_LINES as int)
        };
        self.tokenizer.tokens(join_lines(sample))
    }

    /// The lines per part that [`Splitter::calculate_split_parameters`] plans for `lines`.
    pub open spec fn lines_per_chunk(&self, lines: Seq<Seq<char>>) -> nat {
        let sample_lines = if lines.len() < SAMPLE_LINES {
            lines.len()
        } else {
            SAMPLE_LINES as nat
        };
        planned_lines(self.max_chunk_tokens as nat, self.sample_tokens(lines), sample_lines)
    }

    /// The lines of overlap that [`Splitter::calculate_split_parameters`] plans for `lines`.
    pub open spec fn overlap_lines(&self, lines: Seq<Seq<char>>) -> nat {
        let sample_lines = if lines.len() < SAMPLE_LINES {
            lines.len()
        } else {
            SAMPLE_LINES as nat
        };
        planned_overlap(
            self.overlap_tokens as nat,
            self.lines_per_chunk(lines),
            self.sample_tokens(lines),
            sample_lines,
        )
    }

    /// The number of parts that [`Splitter::calculate_split_parameters`] plans for `lines`.
    pub open spec fn estimated_parts(&self, lines: Seq<Seq<char>>) -> nat {
        planned_parts(lines.len(), self.lines_per_chunk(lines), self.overlap_lines(lines))
    }

    /// Plans the split of a file from a sample of its first lines. The
    /// overlap is at most half a part, so that each part starts behind the
    /// one before it.
    pub fn calculate_split_parameters(&self, lines: &Vec<String>, _total_tokens: usize) -> (params:
        SplitParameters)
        ensures
            params.lines_per_chunk == self.lines_per_chunk(texts(lines@)),
            params.overlap_lines == self.overlap_lines(texts(lines@)),
            params.estimated_parts == self.estimated_parts(texts(lines@)),
            params.lines_per_chunk >= 1,
            params.overlap_lines <= params.lines_per_chunk / 2,
            params.estimated_parts <= lines@.len(),
    {
        let total_lines = lines.len();
        let sample_size = if total_lines < SAMPLE_LINES {
            total_lines
        } else {
            SAMPLE_LINES
        };
        let sample = join_range(lines, 0, sample_size);
        proof {
            let all = texts(lines@);
            assert(all.subrange(0, sample_size as int) == if all.len() < SAMPLE_LINES {
                all
            } else {
                all.take(SAMPLE_LINES as int)
            });
        }
        let sample_tokens = self.tokenizer.estimate(sample.as_str());
        let lines_per_chunk = lines_for_budget(self.max_chunk_tokens, sample_tokens, sample_size);
        let lines_per_chunk = if lines_per_chunk < 1 {
            1
        } else {
            lines_per_chunk
        };
        let overlap_lines = lines_for_budget(self.overlap_tokens, sample_tokens, sample_size);
        let overlap_lines = if overlap_lines < lines_per_chunk / 2 {
            overlap_lines
        } else {
            lines_per_chunk / 2
        };
        let advance = lines_per_chunk - overlap_lines;
        proof {
            lemma_parts_bound(total_lines as nat, advance as nat);
        }
        let estimated_parts = (((total_lines as u128) + (advance as u128) - 1) / (
        advance as u128)) as usize;
        SplitParameters { lines_per_chunk, overlap_lines, estimated_parts }
    }
    /// Part `k`, counted from 0, of a text file with the lines `lines`:
    /// the lines from `k` advances on, as many as a part holds or as are
    /// left, under the file's paths, labelled, and measured anew.
    pub open spec fn part(&self, file: FileView, lines: Seq<Seq<char>>, k: int) -> FileView {
        let lines_per_chunk = self.lines_per_chunk(lines);
        let advance = lines_per_chunk - self.overlap_lines(lines);
        let start = k * advance;
        let end = if start + lines_per_chunk < lines.len() {
            start + lines_per_chunk
        } else {
            lines.len() as int
        };
        let text = join_lines(lines.subrange(start, end));
        FileView {
            absolute_path: file.absolute_path,
            relative_path: part_label(
                file.relative_path,
                (k + 1) as nat,
                self.estimated_parts(lines),
            ),
            content: ContentView::Text(text),
            token_count: self.tokenizer.tokens(text),
        }
    }

    /// The parts into which a text file is sliced: the file itself where
    /// it has no line. A binary file has none.
    pub open spec fn parts_of(&self, file: FileView) -> Seq<FileView> {
        match file.content {
            ContentView::Text(text) => {
                let lines = lines_of(text);
                if lines.len() == 0 {
                    seq![file]
                } else {
                    let lines_per_chunk = self.lines_per_chunk(lines);
                    let advance = (lines_per_chunk - self.overlap_lines(lines)) as nat;
                    Seq::new(
                        part_count(lines.len(), lines_per_chunk, advance),
                        |k: int| self.part(file, lines, k),
                    )
                }
            },
            ContentView::Binary { .. } => Seq::empty(),
        }
    }

    /// Splits a large file into multiple parts with overlap. A binary
    /// file has no lines to split at and is refused.
    pub fn split_large_file(&self, file: &FileData) -> (result: Result<Vec<FileData>, Error>)
        ensures
            match result {
                Ok(parts) => file.content is Text && file_views(parts@) == self.parts_of(file@),
                Err(error) => file.content is Binary && error == (Error::FileTooLarge {
                    path: file.absolute_path,
                    size: file.token_count,
                    limit: self.max_chunk_tokens,
                }),
            },
    {
        let content = match &file.content {
            FileContent::Text(text) => text,
            FileContent::Binary { .. } => {
                return Err(
                    Error::FileTooLarge {
                        path: file.absolute_path.clone(),
                        size: file.token_count,
                        limit: self.max_chunk_tokens,
                    },
                );
            },
        };
        let lines = split_lines(content.as_str());
        let total_lines = lines.len();
        let ghost all = lines_of(content@);
        assert(texts(lines@).len() == lines@.len());
        if total_lines == 0 {
            let mut parts: Vec<FileData> = Vec::new();
            parts.push(file.clone());
            assert(file_views(parts@) == seq![file@]);
            return Ok(parts);
        }
        let params = self.calculate_split_parameters(&lines, file.token_count);
        let lines_per_chunk = params.lines_per_chunk;
        let advance = lines_per_chunk - params.overlap_lines;
        let ghost count = part_count(total_lines as nat, lines_per_chunk as nat, advance as nat);

        let mut parts: Vec<FileData> = Vec::new();
        let mut start_line: usize = 0;
        let mut done = false;
        while !done
            invariant
                texts(lines@) == all,
                all == lines_of(content@),
                file.content == FileContent::Text(*content),
                total_lines == lines@.len(),
                total_lines > 0,
                lines_per_chunk == self.lines_per_chunk(all),
                params.estimated_parts == self.estimated_parts(all),
                params.overlap_lines == self.overlap_lines(all),
                params.overlap_lines <= lines_per_chunk / 2,
                advance == lines_per_chunk - params.overlap_lines,
                advance >= 1,
                lines_per_chunk >= 1,
                count == part_count(total_lines as nat, lines_per_chunk as nat, advance as nat),
                forall|j: int|
                    0 <= j < parts@.len() ==> (#[trigger] parts@[j])@ == self.part(file@, all, j),
                done ==> parts@.len() == count,
                !done ==> {
                    &&& start_line < total_lines
                    &&& start_line == parts@.len() * advance
                    &&& parts@.len() >= 1 ==> (parts@.len() - 1) * advance + lines_per_chunk
                        < total_lines
                },
            decreases total_lines - start_line + (if done { 0int } else { 1int }),
        {
            let ghost k = parts@.len();
            let end_line = if lines_per_chunk >= total_lines - start_line {
                total_lines
            } else {
                start_line + lines_per_chunk
            };
            let text = join_range(&lines, start_line, end_line);
            let token_count = self.tokenizer.estimate(text.as_str());
            assert(k < total_lines) by (nonlinear_arith)
                requires
                    start_line == k * advance,
                    start_line < total_lines,
                    advance >= 1,
            ;
            let label = part_label_string(
                file.relative_path.as_str(),
                parts.len() + 1,
                params.estimated_parts,
            );
            let part = FileData::new_text(file.absolute_path.clone(), label, text, token_count);
            assert(part@ == self.part(file@, all, k as int));
            parts.push(part);
            if end_line >= total_lines {
                proof {
                    lemma_last_part(
                        total_lines as nat,
                        lines_per_chunk as nat,
                        advance as nat,
                        k,
                    );
                }
                done = true;
            } else {
                assert((k + 1) * advance == k * advance + advance) by (nonlinear_arith);
                start_line = end_line - params.overlap_lines;
            }
        }
        assert(file_views(parts@) == self.parts_of(file@));
        Ok(parts)
    }

    /// A binary file over the capacity: it cannot be split.
    pub open spec fn too_large(&self, file: FileView) -> bool {
        file.token_count > self.max_chunk_tokens && file.content is Binary
    }

    /// The packing after `file` has been placed. A file within the
    /// capacity joins the open group where the group stays within the
    /// capacity, and opens a new one where it does not. A file over the
    /// capacity closes the open group, and each of its parts is a group
    /// of its own.
    pub open spec fn place(&self, packing: Packing, file: FileView) -> Packing {
        if file.token_count <= self.max_chunk_tokens {
            if token_sum(packing.open) + file.token_count <= self.max_chunk_tokens {
                Packing { closed: packing.closed, open: packing.open.push(file) }
            } else {
                Packing { closed: packing.flushed(), open: seq![file] }
            }
        } else {
            Packing {
                closed: packing.flushed() + singletons(self.parts_of(file)),
                open: Seq::empty(),
            }
        }
    }

    /// The packing after `files` have been placed one by one, in order.
    pub open spec fn pack(&self, files: Seq<FileView>) -> Packing
        decreases files.len(),
    {
        if files.len() == 0 {
            Packing { closed: Seq::empty(), open: Seq::empty() }
        } else {
            self.place(self.pack(files.drop_last()), files.last())
        }
    }

    /// The groups of files, one for each chunk, into which `files` are split.
    pub open spec fn groups(&self, files: Seq<FileView>) -> Seq<Seq<FileView>> {
        self.pack(files).flushed()
    }

    /// The position of the first binary file over the capacity, or
    /// `files.len()` when there is none.
    pub open spec fn first_too_large(&self, files: Seq<FileView>) -> int {
        first_where(files, |file: FileView| self.too_large(file))
    }

    /// What holds between the chunks made so far and the builder of the
    /// next one while files are being placed.
    pub open spec fn consistent(&self, chunks: Seq<Chunk>, builder: ChunkBuilder) -> bool {
        &&& numbered_and_summed(chunks)
        &&& builder.well_formed()
        &&& builder.max_tokens == self.max_chunk_tokens
        &&& builder.index == chunks.len()
    }

    /// Closes the chunk under construction, if it holds a file, and starts
    /// an empty one with the next index.
    pub fn finish_chunk(&self, current_builder: &mut ChunkBuilder, chunks: &mut Vec<Chunk>)
        requires
            self.consistent(old(chunks)@, *old(current_builder)),
        ensures
            self.consistent(final(chunks)@, *final(current_builder)),
            final(current_builder).files@.len() == 0,
            groups_of(final(chunks)@) == (Packing {
                closed: groups_of(old(chunks)@),
                open: file_views(old(current_builder).files@),
            }).flushed(),
    {
        let mut finished = ChunkBuilder::new(0, self.max_chunk_tokens);
        std::mem::swap(current_builder, &mut finished);
        let ghost before = chunks@;
        if let Some(chunk) = finished.build() {
            chunks.push(chunk);
            assert(groups_of(chunks@) == groups_of(before).push(file_views(chunk.files@)));
        }
        current_builder.index = chunks.len();
    }

    /// Processes a single file, adding it to chunks.
    pub fn process_file(
        &self,
        file: FileData,
        current_builder: &mut ChunkBuilder,
        chunks: &mut Vec<Chunk>,
    ) -> (result: Result<(), Error>)
        requires
            self.consistent(old(chunks)@, *old(current_builder)),
        ensures
            self.consistent(final(chunks)@, *final(current_builder)),
            match result {
                Ok(()) => {
                    &&& !self.too_large(file@)
                    &&& (Packing {
                        closed: groups_of(final(chunks)@),
                        open: file_views(final(current_builder).files@),
                    }) == self.place(
                        Packing {
                            closed: groups_of(old(chunks)@),
                            open: file_views(old(current_builder).files@),
                        },
                        file@,
                    )
                },
                Err(error) => {
                    &&& self.too_large(file@)
                    &&& error == (Error::FileTooLarge {
                        path: file.absolute_path,
                        size: file.token_count,
                        limit: self.max_chunk_tokens,
                    })
                },
            },
    {
        if file.token_count <= self.max_chunk_tokens {
            if current_builder.can_fit(file.token_count) {
                proof {
                    let open = file_views(current_builder.files@);
                    assert(file_views(current_builder.files@.push(file)) == open.push(file@));
                }
                current_builder.add_file(file);
                Ok(())
            } else {
                self.finish_chunk(current_builder, chunks);
                proof {
                    assert(file_views(current_builder.files@.push(file)) == seq![file@]);
                }
                current_builder.add_file(file);
                Ok(())
            }
        } else {
            let result = self.handle_large_file(file, current_builder, chunks);
            proof {
                assert(result is Ok ==> file_views(current_builder.files@) == Seq::<
                    FileView,
                >::empty());
            }
            result
        }
    }

    /// Handles files that exceed chunk size limits.
    pub fn handle_large_file(
        &self,
        file: FileData,
        current_builder: &mut ChunkBuilder,
        chunks: &mut Vec<Chunk>,
    ) -> (result: Result<(), Error>)
        requires
            self.consistent(old(chunks)@, *old(current_builder)),
        ensures
            self.consistent(final(chunks)@, *final(current_builder)),
            match result {
                Ok(()) => {
                    &&& file.content is Text
                    &&& final(current_builder).files@.len() == 0
                    &&& groups_of(final(chunks)@) == (Packing {
                        closed: groups_of(old(chunks)@),
                        open: file_views(old(current_builder).files@),
                    }).flushed() + singletons(self.parts_of(file@))
                },
                Err(error) => {
                    &&& file.content is Binary
                    &&& error == (Error::FileTooLarge {
                        path: file.absolute_path,
                        size: file.token_count,
                        limit: self.max_chunk_tokens,
                    })
                },
            },
    {
        self.finish_chunk(current_builder, chunks);
        let parts = match self.split_large_file(&file) {
            Ok(parts) => parts,
            Err(error) => {
                return Err(error);
            },
        };
        let ghost flushed = groups_of(chunks@);
        let ghost expected = self.parts_of(file@);
        assert(flushed + singletons(expected.take(0)) == flushed);
        for part in iter: parts
            invariant
                iter.seq() == parts@,
                file_views(parts@) == expected,
                numbered_and_summed(chunks@),
                groups_of(chunks@) == flushed + singletons(expected.take(iter.index() as int)),
        {
            let ghost k = iter.index() as int;
            let ghost before = chunks@;
            let mut builder = ChunkBuilder::new(chunks.len(), self.max_chunk_tokens);
            proof {
                assert(part@ == expected[k]);
                assert(file_views(builder.files@.push(part)) == seq![part@]);
                lemma_token_sum_single(part@);
            }
            builder.add_file(part);
            if let Some(chunk) = builder.build() {
                chunks.push(chunk);
            }
            proof {
                assert(groups_of(chunks@) == groups_of(before).push(seq![expected[k]]));
                assert(singletons(expected.take(k + 1)) == singletons(expected.take(k)).push(
                    seq![expected[k]],
                ));
            }
        }
        proof {
            assert(expected.take(expected.len() as int) == expected);
        }
        current_builder.index = chunks.len();
        Ok(())
    }

    /// What [`Splitter::split`] returns for `files`. Where no binary file
    /// is over the capacity: the chunks of [`Splitter::groups`], each with
    /// its position as its index and the sum of its files' token counts as
    /// its total. Else the error that names the first such file.
    pub open spec fn split_outcome(
        &self,
        files: Seq<FileData>,
        result: Result<Vec<Chunk>, Error>,
    ) -> bool {
        let at = self.first_too_large(file_views(files));
        match result {
            Ok(chunks) => {
                &&& at == files.len()
                &&& groups_of(chunks@) == self.groups(file_views(files))
                &&& numbered_and_summed(chunks@)
            },
            Err(error) => {
                &&& 0 <= at < files.len()
                &&& error == (Error::FileTooLarge {
                    path: files[at].absolute_path,
                    size: files[at].token_count,
                    limit: self.max_chunk_tokens,
                })
            },
        }
    }

    /// Splits files into chunks respecting token limits.
    ///
    /// Files are placed in the order given. The call fails on the first
    /// binary file over the capacity, and then no chunk is returned.
    pub fn split(&self, files: Vec<FileData>) -> (result: Result<Vec<Chunk>, Error>)
        ensures
            self.split_outcome(files@, result),
            result is Err <==> exists|i: int| 0 <= i < files@.len() && self.too_large(files@[i]@),
            files@.len() == 0 ==> result is Ok && result->Ok_0@.len() == 0,
    {
        let mut chunks: Vec<Chunk> = Vec::new();
        let mut current_builder = ChunkBuilder::new(0, self.max_chunk_tokens);
        let ghost all = file_views(files@);
        proof {
            assert(groups_of(chunks@) == Seq::<Seq<FileView>>::empty());
            assert(file_views(current_builder.files@) == Seq::<FileView>::empty());
            assert(all.take(0) == Seq::<FileView>::empty());
        }
        for file in iter: files
            invariant
                iter.seq() == files@,
                all == file_views(files@),
                self.consistent(chunks@, current_builder),
                (Packing {
                    closed: groups_of(chunks@),
                    open: file_views(current_builder.files@),
                }) == self.pack(all.take(iter.index() as int)),
                forall|j: int| 0 <= j < iter.index() ==> !self.too_large(#[trigger] all[j]),
        {
            let ghost k = iter.index() as int;
            proof {
                assert(all.take(k + 1).drop_last() == all.take(k));
                assert(all.take(k + 1).last() == file@);
            }
            match self.process_file(file, &mut current_builder, &mut chunks) {
                Ok(()) => {},
                Err(error) => {
                    proof {
                        lemma_first_where_at(all, |file: FileView| self.too_large(file), k);
                        self.lemma_failure_iff_too_large(all);
                    }
                    return Err(error);
                },
            }
        }
        proof {
            assert(all.take(all.len() as int) == all);
            lemma_first_where_at(all, |file: FileView| self.too_large(file), all.len() as int);
            assert forall|i: int| 0 <= i < files@.len() implies !self.too_large(files@[i]@) by {
                assert(all[i] == files@[i]@);
            }
        }
        self.finish_chunk(&mut current_builder, &mut chunks);
        Ok(chunks)
    }
    /// The first binary file over the capacity is one, with none before
    /// it; the position is `files.len()` exactly when there is none.
    pub proof fn lemma_failure_iff_too_large(&self, files: Seq<FileView>)
        ensures
            0 <= self.first_too_large(files) <= files.len(),
            forall|j: int| 0 <= j < self.first_too_large(files) ==> !self.too_large(files[j]),
            self.first_too_large(files) < files.len() ==> self.too_large(
                files[self.first_too_large(files)],
            ),
            self.first_too_large(files) < files.len() <==> exists|i: int|
                0 <= i < files.len() && self.too_large(files[i]),
    {
        lemma_first_where_bounds(files, |file: FileView| self.too_large(file));
        let at = self.first_too_large(files);
        if at >= files.len() {
            assert forall|i: int| 0 <= i < files.len() implies !self.too_large(files[i]) by {}
        }
    }
}

/// The files of `groups`, group after group.
pub open spec fn joined(groups: Seq<Seq<FileView>>) -> Seq<FileView>
    decreases groups.len(),
{
    if groups.len() == 0 {
        Seq::empty()
    } else {
        joined(groups.drop_last()) + groups.last()
    }
}

/// A group at the end adds its files at the end.
proof fn lemma_joined_push(groups: Seq<Seq<FileView>>, group: Seq<FileView>)
    ensures
        joined(groups.push(group)) == joined(groups) + group,
{
    assert(groups.push(group).drop_last() == groups);
}

/// Joining distributes over appending lists of groups.
proof fn lemma_joined_add(front: Seq<Seq<FileView>>, back: Seq<Seq<FileView>>)
    ensures
        joined(front + back) == joined(front) + joined(back),
    decreases back.len(),
{
    if back.len() == 0 {
        assert(front + back == front);
        assert(joined(front) + joined(back) == joined(front));
    } else {
        lemma_joined_add(front, back.drop_last());
        assert((front + back).drop_last() == front + back.drop_last());
        assert(joined(front) + (joined(back.drop_last()) + back.last()) == (joined(front) + joined(
            back.drop_last(),
        )) + back.last());
    }
}

/// Files as groups of their own join to the files.
proof fn lemma_joined_singletons(files: Seq<FileView>)
    ensures
        joined(singletons(files)) == files,
    decreases files.len(),
{
    if files.len() == 0 {
        assert(singletons(files) == Seq::<Seq<FileView>>::empty());
        assert(joined(singletons(files)) == files);
    } else {
        lemma_joined_singletons(files.drop_last());
        assert(singletons(files).drop_last() == singletons(files.drop_last()));
        assert(files.drop_last() + seq![files.last()] == files);
    }
}

/// Closing the open group changes no file and no order.
proof fn lemma_joined_flushed(packing: Packing)
    ensures
        joined(packing.flushed()) == joined(packing.closed) + packing.open,
{
    if packing.open.len() == 0 {
        assert(joined(packing.closed) + packing.open == joined(packing.closed));
    } else {
        lemma_joined_push(packing.closed, packing.open);
    }
}

impl<E: TokenEstimator> Splitter<E> {
    /// `files` with each file over the capacity replaced by its parts.
    pub open spec fn expanded(&self, files: Seq<FileView>) -> Seq<FileView>
        decreases files.len(),
    {
        if files.len() == 0 {
            Seq::empty()
        } else if files.last().token_count <= self.max_chunk_tokens {
            self.expanded(files.drop_last()).push(files.last())
        } else {
            self.expanded(files.drop_last()) + self.parts_of(files.last())
        }
    }

    /// Whether `group` is one part, alone, of a file of `files` that is
    /// over the capacity.
    pub open spec fn is_part_group(&self, files: Seq<FileView>, group: Seq<FileView>) -> bool {
        exists|j: int, k: int|
            {
                &&& 0 <= j < files.len()
                &&& (#[trigger] files[j]).token_count > self.max_chunk_tokens
                &&& 0 <= k < self.parts_of(files[j]).len()
                &&& group == seq![#[trigger] self.parts_of(files[j])[k]]
            }
    }

    /// An empty list of files is split into no chunk.
    pub proof fn lemma_empty_input(&self)
        ensures
            self.groups(Seq::empty()) == Seq::<Seq<FileView>>::empty(),
    {
    }

    /// A packing holds the files placed so far, in order, with the large ones as parts.
    proof fn lemma_pack_covers(&self, files: Seq<FileView>)
        ensures
            joined(self.pack(files).closed) + self.pack(files).open == self.expanded(files),
        decreases files.len(),
    {
        if files.len() == 0 {
            assert(joined(self.pack(files).closed) + self.pack(files).open == Seq::<
                FileView,
            >::empty());
        } else {
            let before = self.pack(files.drop_last());
            let file = files.last();
            let after = self.pack(files);
            self.lemma_pack_covers(files.drop_last());
            lemma_joined_flushed(before);
            if file.token_count <= self.max_chunk_tokens {
                if token_sum(before.open) + file.token_count <= self.max_chunk_tokens {
                    assert(joined(before.closed) + before.open.push(file) == (joined(before.closed)
                        + before.open).push(file));
                } else {
                    assert(joined(before.flushed()) + seq![file] == joined(before.flushed()).push(
                        file,
                    ));
                }
            } else {
                let parts = self.parts_of(file);
                lemma_joined_add(before.flushed(), singletons(parts));
                lemma_joined_singletons(parts);
                assert(after.open == Seq::<FileView>::empty());
                assert(joined(after.closed) + after.open == joined(after.closed));
            }
        }
    }

    /// No file is dropped and none moves: the files of the chunks, chunk
    /// after chunk, are the files given, in their order, with each file
    /// over the capacity replaced by its parts.
    pub proof fn lemma_chunks_cover_input(&self, files: Seq<FileView>)
        ensures
            joined(self.groups(files)) == self.expanded(files),
    {
        self.lemma_pack_covers(files);
        lemma_joined_flushed(self.pack(files));
    }

    /// Where every file is within the capacity, no file is sliced: the
    /// files of the chunks, chunk after chunk, are exactly the files given.
    pub proof fn lemma_no_unnecessary_splitting(&self, files: Seq<FileView>)
        requires
            forall|i: int| 0 <= i < files.len() ==> files[i].token_count <= self.max_chunk_tokens,
        ensures
            joined(self.groups(files)) == files,
    {
        self.lemma_chunks_cover_input(files);
        self.lemma_expanded_unchanged(files);
    }

    /// Files within the capacity expand to themselves.
    proof fn lemma_expanded_unchanged(&self, files: Seq<FileView>)
        requires
            forall|i: int| 0 <= i < files.len() ==> files[i].token_count <= self.max_chunk_tokens,
        ensures
            self.expanded(files) == files,
        decreases files.len(),
    {
        if files.len() > 0 {
            self.lemma_expanded_unchanged(files.drop_last());
            assert(files.drop_last().push(files.last()) == files);
        }
    }

    /// A part group of the files before stays one when a file is added.
    proof fn lemma_part_group_extends(&self, files: Seq<FileView>, group: Seq<FileView>)
        requires
            files.len() > 0,
            self.is_part_group(files.drop_last(), group),
        ensures
            self.is_part_group(files, group),
    {
        let shorter = files.drop_last();
        let (j, k) = choose|j: int, k: int|
            {
                &&& 0 <= j < shorter.len()
                &&& (#[trigger] shorter[j]).token_count > self.max_chunk_tokens
                &&& 0 <= k < self.parts_of(shorter[j]).len()
                &&& group == seq![#[trigger] self.parts_of(shorter[j])[k]]
            };
        assert(files[j] == shorter[j]);
        assert(group == seq![self.parts_of(files[j])[k]]);
    }

    /// A file that is split has one part at least.
    pub proof fn lemma_parts_not_empty(&self, file: FileView)
        requires
            file.content is Text,
        ensures
            self.parts_of(file).len() >= 1,
    {
    }

    /// The open group stays within the capacity, and so does each closed one that is no part.
    proof fn lemma_pack_bounded(&self, files: Seq<FileView>)
        requires
            self.first_too_large(files) == files.len(),
        ensures
            token_sum(self.pack(files).open) <= self.max_chunk_tokens,
            forall|i: int|
                0 <= i < self.pack(files).closed.len() ==> {
                    let group = #[trigger] self.pack(files).closed[i];
                    &&& group.len() >= 1
                    &&& token_sum(group) <= self.max_chunk_tokens || self.is_part_group(
                        files,
                        group,
                    )
                },
        decreases files.len(),
    {
        if files.len() > 0 {
            let shorter = files.drop_last();
            let before = self.pack(shorter);
            let file = files.last();
            let after = self.pack(files);
            self.lemma_failure_iff_too_large(files);
            assert forall|j: int| 0 <= j < shorter.len() implies !self.too_large(shorter[j]) by {
                assert(shorter[j] == files[j]);
            }
            lemma_first_where_at(
                shorter,
                |file: FileView| self.too_large(file),
                shorter.len() as int,
            );
            self.lemma_pack_bounded(shorter);
            assert forall|i: int| 0 <= i < before.flushed().len() implies {
                let group = #[trigger] before.flushed()[i];
                &&& group.len() >= 1
                &&& token_sum(group) <= self.max_chunk_tokens || self.is_part_group(files, group)
            } by {
                let group = before.flushed()[i];
                if i < before.closed.len() {
                    assert(group == before.closed[i]);
                    if self.is_part_group(shorter, group) {
                        self.lemma_part_group_extends(files, group);
                    }
                }
            }
            if file.token_count <= self.max_chunk_tokens {
                if token_sum(before.open) + file.token_count <= self.max_chunk_tokens {
                    assert(before.open.push(file).drop_last() == before.open);
                    assert forall|i: int| 0 <= i < after.closed.len() implies {
                        let group = #[trigger] after.closed[i];
                        &&& group.len() >= 1
                        &&& token_sum(group) <= self.max_chunk_tokens || self.is_part_group(
                            files,
                            group,
                        )
                    } by {
                        let group = after.closed[i];
                        assert(group == before.closed[i]);
                        if self.is_part_group(shorter, group) {
                            self.lemma_part_group_extends(files, group);
                        }
                    }
                } else {
                    lemma_token_sum_single(file);
                }
            } else {
                assert(!self.too_large(file));
                let parts = self.parts_of(file);
                let last = files.len() - 1;
                assert forall|i: int| 0 <= i < after.closed.len() implies {
                    let group = #[trigger] after.closed[i];
                    &&& group.len() >= 1
                    &&& token_sum(group) <= self.max_chunk_tokens || self.is_part_group(
                        files,
                        group,
                    )
                } by {
                    let group = after.closed[i];
                    let n = before.flushed().len();
                    if i < n {
                        assert(group == before.flushed()[i]);
                    } else {
                        let k = i - n;
                        assert(group == singletons(parts)[k]);
                        assert(group == seq![self.parts_of(files[last])[k]]);
                        assert(files[last].token_count > self.max_chunk_tokens);
                    }
                }
                assert(after.open == Seq::<FileView>::empty());
            }
        }
    }

    /// No chunk is empty, and a chunk stays within the capacity unless it
    /// holds one part, alone, of a file that is over it.
    pub proof fn lemma_packing_correct(&self, files: Seq<FileView>)
        requires
            forall|i: int| 0 <= i < files.len() ==> !self.too_large(files[i]),
        ensures
            forall|i: int|
                0 <= i < self.groups(files).len() ==> {
                    let group = #[trigger] self.groups(files)[i];
                    &&& group.len() >= 1
                    &&& token_sum(group) <= self.max_chunk_tokens || self.is_part_group(
                        files,
                        group,
                    )
                },
    {
        lemma_first_where_at(files, |file: FileView| self.too_large(file), files.len() as int);
        self.lemma_pack_bounded(files);
        let packing = self.pack(files);
        assert forall|i: int| 0 <= i < self.groups(files).len() implies {
            let group = #[trigger] self.groups(files)[i];
            &&& group.len() >= 1
            &&& token_sum(group) <= self.max_chunk_tokens || self.is_part_group(files, group)
        } by {
            if i < packing.closed.len() {
                assert(self.groups(files)[i] == packing.closed[i]);
            }
        }
    }

    /// Whether `second` may follow `first` in a packing: `first` has no
    /// room for the first file of `second`, or one of the two is a part
    /// of a file over the capacity.
    pub open spec fn follows_filled(
        &self,
        files: Seq<FileView>,
        first: Seq<FileView>,
        second: Seq<FileView>,
    ) -> bool {
        ||| self.is_part_group(files, first)
        ||| self.is_part_group(files, second)
        ||| second.len() > 0 && token_sum(first) + second[0].token_count > self.max_chunk_tokens
    }

    /// Each closed group is filled, and the last one has no room for the
    /// first file of the open group unless it is a part.
    proof fn lemma_pack_filled(&self, files: Seq<FileView>)
        requires
            self.first_too_large(files) == files.len(),
        ensures
            forall|i: int|
                0 <= i < self.pack(files).closed.len() - 1 ==> self.follows_filled(
                    files,
                    #[trigger] self.pack(files).closed[i],
                    self.pack(files).closed[i + 1],
                ),
            self.pack(files).closed.len() > 0 && self.pack(files).open.len() > 0 ==> {
                ||| self.is_part_group(files, self.pack(files).closed.last())
                ||| token_sum(self.pack(files).closed.last()) + self.pack(files).open[0].token_count
                    > self.max_chunk_tokens
            },
        decreases files.len(),
    {
        if files.len() > 0 {
            let shorter = files.drop_last();
            let before = self.pack(shorter);
            let file = files.last();
            let after = self.pack(files);
            self.lemma_failure_iff_too_large(files);
            assert forall|j: int| 0 <= j < shorter.len() implies !self.too_large(shorter[j]) by {
                assert(shorter[j] == files[j]);
            }
            lemma_first_where_at(
                shorter,
                |file: FileView| self.too_large(file),
                shorter.len() as int,
            );
            self.lemma_pack_filled(shorter);
            let flushed = before.flushed();
            assert forall|i: int| 0 <= i < flushed.len() - 1 implies self.follows_filled(
                files,
                #[trigger] flushed[i],
                flushed[i + 1],
            ) by {
                if i < before.closed.len() - 1 {
                    assert(flushed[i] == before.closed[i]);
                    assert(flushed[i + 1] == before.closed[i + 1]);
                    assert(self.follows_filled(shorter, before.closed[i], before.closed[i + 1]));
                    if self.is_part_group(shorter, flushed[i]) {
                        self.lemma_part_group_extends(files, flushed[i]);
                    }
                    if self.is_part_group(shorter, flushed[i + 1]) {
                        self.lemma_part_group_extends(files, flushed[i + 1]);
                    }
                } else {
                    assert(flushed[i] == before.closed.last());
                    assert(flushed[i + 1] == before.open);
                    if self.is_part_group(shorter, flushed[i]) {
                        self.lemma_part_group_extends(files, flushed[i]);
                    }
                }
            }
            if file.token_count <= self.max_chunk_tokens {
                if token_sum(before.open) + file.token_count <= self.max_chunk_tokens {
                    assert(after.closed == before.closed);
                    assert forall|i: int| 0 <= i < after.closed.len() - 1 implies self.follows_filled(
                        files,
                        #[trigger] after.closed[i],
                        after.closed[i + 1],
                    ) by {
                        assert(self.follows_filled(shorter, before.closed[i], before.closed[i + 1]));
                        if self.is_part_group(shorter, before.closed[i]) {
                            self.lemma_part_group_extends(files, before.closed[i]);
                        }
                        if self.is_part_group(shorter, before.closed[i + 1]) {
                            self.lemma_part_group_extends(files, before.closed[i + 1]);
                        }
                    }
                    if after.closed.len() > 0 {
                        if before.open.len() > 0 {
                            assert(after.open[0] == before.open[0]);
                            if self.is_part_group(shorter, before.closed.last()) {
                                self.lemma_part_group_extends(files, before.closed.last());
                            }
                        } else {
                            // No group was open: the last closed one is a part.
                            self.lemma_closed_ends_with_part(shorter);
                            self.lemma_part_group_extends(files, before.closed.last());
                        }
                    }
                } else {
                    assert(before.open.len() > 0) by {
                        if before.open.len() == 0 {
                            assert(token_sum(before.open) == 0);
                        }
                    }
                    assert(after.closed == flushed);
                    assert(after.closed.last() == before.open);
                    assert(after.open[0] == file);
                }
            } else {
                let parts = self.parts_of(file);
                let last = files.len() - 1;
                assert(!self.too_large(file));
                let n = flushed.len();
                assert forall|i: int| 0 <= i < after.closed.len() - 1 implies self.follows_filled(
                    files,
                    #[trigger] after.closed[i],
                    after.closed[i + 1],
                ) by {
                    if i + 1 < n {
                        assert(after.closed[i] == flushed[i]);
                        assert(after.closed[i + 1] == flushed[i + 1]);
                    } else {
                        let k = i + 1 - n;
                        assert(after.closed[i + 1] == singletons(parts)[k]);
                        assert(after.closed[i + 1] == seq![self.parts_of(files[last])[k]]);
                        assert(self.is_part_group(files, after.closed[i + 1]));
                    }
                }
                assert(after.open.len() == 0);
            }
        }
    }

    /// Where groups are closed and none is open, the last closed group is
    /// a part of a file over the capacity.
    proof fn lemma_closed_ends_with_part(&self, files: Seq<FileView>)
        requires
            self.first_too_large(files) == files.len(),
            self.pack(files).closed.len() > 0,
            self.pack(files).open.len() == 0,
        ensures
            self.is_part_group(files, self.pack(files).closed.last()),
        decreases files.len(),
    {
        if files.len() > 0 {
            let shorter = files.drop_last();
            let before = self.pack(shorter);
            let file = files.last();
            let after = self.pack(files);
            self.lemma_failure_iff_too_large(files);
            if file.token_count > self.max_chunk_tokens {
                assert(!self.too_large(file));
                let parts = self.parts_of(file);
                let last = files.len() - 1;
                let n = before.flushed().len();
                let k = parts.len() - 1;
                assert(after.closed.last() == singletons(parts)[k]);
                assert(after.closed.last() == seq![self.parts_of(files[last])[k]]);
            }
        }
    }

    /// Chunks are filled as far as the order of the files allows: of two
    /// chunks that follow one another, the first has no room for the
    /// first file of the second, unless one of the two is a part of a file
    /// over the capacity.
    pub proof fn lemma_chunks_are_filled(&self, files: Seq<FileView>)
        requires
            forall|i: int| 0 <= i < files.len() ==> !self.too_large(files[i]),
        ensures
            forall|i: int|
                0 <= i < self.groups(files).len() - 1 ==> self.follows_filled(
                    files,
                    #[trigger] self.groups(files)[i],
                    self.groups(files)[i + 1],
                ),
    {
        lemma_first_where_at(files, |file: FileView| self.too_large(file), files.len() as int);
        self.lemma_pack_filled(files);
        let packing = self.pack(files);
        let groups = self.groups(files);
        assert forall|i: int| 0 <= i < groups.len() - 1 implies self.follows_filled(
            files,
            #[trigger] groups[i],
            groups[i + 1],
        ) by {
            if i < packing.closed.len() - 1 {
                assert(groups[i] == packing.closed[i]);
                assert(groups[i + 1] == packing.closed[i + 1]);
            } else {
                assert(groups[i] == packing.closed.last());
                assert(groups[i + 1] == packing.open);
            }
        }
    }

    /// The parts of a file follow one another through its lines: each
    /// part starts inside the file; each part but the last holds a full
    /// part's lines, and the next starts where it ends less the overlap,
    /// behind where it started; the last part ends with the last line.
    pub proof fn lemma_parts_tile_the_lines(&self, lines: Seq<Seq<char>>, k: int)
        requires
            lines.len() > 0,
            0 <= k < part_count(
                lines.len(),
                self.lines_per_chunk(lines),
                (self.lines_per_chunk(lines) - self.overlap_lines(lines)) as nat,
            ),
        ensures
            ({
                let per_part = self.lines_per_chunk(lines);
                let overlap = self.overlap_lines(lines);
                let advance = per_part - overlap;
                let count = part_count(lines.len(), per_part, advance as nat);
                &&& advance >= 1
                &&& 0 <= k * advance < lines.len()
                &&& k + 1 < count ==> {
                    &&& k * advance + per_part < lines.len()
                    &&& (k + 1) * advance == k * advance + per_part - overlap
                }
                &&& k + 1 == count ==> k * advance + per_part >= lines.len()
            }),
    {
        let total = lines.len() as int;
        let per_part = self.lines_per_chunk(lines) as int;
        let overlap = self.overlap_lines(lines) as int;
        let advance = per_part - overlap;
        let count = part_count(lines.len(), per_part as nat, advance as nat) as int;
        assert((k + 1) * advance == k * advance + advance) by (nonlinear_arith);
        assert(k * advance >= 0) by (nonlinear_arith)
            requires
                k >= 0,
                advance >= 1,
        ;
        if total > per_part {
            let x = total - per_part;
            lemma_rounded_up(x, advance);
            let m = (x + advance - 1) / advance;
            assert(count == m + 1);
            assert((m - 1) * advance == m * advance - advance) by (nonlinear_arith);
            if k < m {
                assert(k * advance <= (m - 1) * advance) by (nonlinear_arith)
                    requires
                        k <= m - 1,
                        advance >= 1,
                ;
                assert(k * advance + per_part < total);
            } else {
                assert(k == m);
                assert(k * advance + per_part >= total);
                assert(k * advance < total);
            }
        } else {
            assert(count == 1);
            assert(k == 0);
            assert(k * advance == 0) by (nonlinear_arith)
                requires
                    k == 0,
            ;
        }
    }

    /// The overlap that is planned for a file is at most half of the lines
    /// of a part, and a part holds one line at least: each part starts
    /// behind the one before it.
    pub proof fn lemma_overlap_bound(&self, lines: Seq<Seq<char>>)
        ensures
            self.lines_per_chunk(lines) >= 1,
            self.overlap_lines(lines) <= self.lines_per_chunk(lines) / 2,
            self.overlap_lines(lines) < self.lines_per_chunk(lines),
    {
    }

    /// Two outcomes of splitting the same files with the same splitter are
    /// the same: the same error, or chunks that hold the same.
    pub proof fn lemma_split_deterministic(
        &self,
        files: Seq<FileData>,
        again: Seq<FileData>,
        first: Result<Vec<Chunk>, Error>,
        second: Result<Vec<Chunk>, Error>,
    )
        requires
            file_views(files) == file_views(again),
            self.split_outcome(files, first),
            self.split_outcome(again, second),
        ensures
            match (first, second) {
                (Ok(a), Ok(b)) => chunk_views(a@) == chunk_views(b@),
                (Err(a), Err(b)) => a == b,
                _ => false,
            },
    {
        assert(files.len() == file_views(files).len());
        assert(again.len() == file_views(again).len());
        match (first, second) {
            (Ok(a), Ok(b)) => {
                assert(a@.len() == groups_of(a@).len());
                assert(b@.len() == groups_of(b@).len());
                assert forall|i: int| 0 <= i < a@.len() implies a@[i]@ == b@[i]@ by {
                    assert(groups_of(a@)[i] == groups_of(b@)[i]);
                }
                assert(chunk_views(a@) == chunk_views(b@));
            },
            (Err(a), Err(b)) => {
                let at = self.first_too_large(file_views(files));
                assert(file_views(files)[at] == files[at]@);
                assert(file_views(again)[at] == again[at]@);
            },
            _ => {},
        }
    }
}

} // verus!