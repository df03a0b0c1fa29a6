//! Selecting files by glob patterns.

use vstd::prelude::*;
use vstd::string::StringExecFns;
use globset::Glob;
use globset::GlobSet;
use globset::GlobSetBuilder;
use std::path::Path;
use crate::error::Error;
use crate::filter::FileFilterConfig;
use crate::text::texts;

verus! {

/// `globset::Glob`, carried as an opaque value.
#[verifier::external_type_specification]
#[verifier::external_body]
pub struct ExGlob(Glob);

/// `globset::GlobSet`, carried as an opaque value.
#[verifier::external_type_specification]
#[verifier::external_body]
pub struct ExGlobSet(GlobSet);

/// `globset::GlobSetBuilder`, carried as an opaque value.
#[verifier::external_type_specification]
#[verifier::external_body]
pub struct ExGlobSetBuilder(GlobSetBuilder);

/// What `Glob::new` says against `pattern`; `None` where it accepts it.
pub uninterp spec fn glob_complaint(pattern: Seq<char>) -> Option<Seq<char>>;

/// The pattern that `glob` was parsed from.
pub uninterp spec fn glob_text(glob: Glob) -> Seq<char>;

/// The patterns of the globs that were added to `builder`, in their order.
pub uninterp spec fn builder_globs(builder: GlobSetBuilder) -> Seq<Seq<char>>;

/// The patterns of the globs that `set` was built from, in their order.
pub uninterp spec fn set_globs(set: GlobSet) -> Seq<Seq<char>>;

/// What `GlobSetBuilder::build` says against a set of these patterns;
/// `None` where it builds the set.
pub uninterp spec fn set_complaint(patterns: Seq<Seq<char>>) -> Option<Seq<char>>;

/// Whether a glob of `set` matches `path`, as `GlobSet::is_match` reports it.
pub uninterp spec fn glob_set_matches(set: GlobSet, path: &Path) -> bool;

/// `path` and the paths above it, as `Path::ancestors` yields them: the
/// path itself first, then its parent, and so on.
pub uninterp spec fn path_ancestors(path: &Path) -> Seq<&Path>;

/// Calls `Glob::new`, which parses the pattern with the default options:
/// the glob of the pattern, or the message of the error. Both depend on
/// the pattern alone.
#[verifier::external_body]
pub(crate) fn parse_glob(pattern: &str) -> (result: Result<Glob, String>)
    ensures
        match result {
            Ok(glob) => glob_complaint(pattern@) is None && glob_text(glob) == pattern@,
            Err(message) => glob_complaint(pattern@) == Some(message@),
        },
{
    match Glob::new(pattern) {
        Ok(glob) => Ok(glob),
        Err(error) => Err(error.to_string()),
    }
}

/// Calls `GlobSetBuilder::new`: a builder that holds no glob.
#[verifier::external_body]
pub(crate) fn new_builder() -> (builder: GlobSetBuilder)
    ensures
        builder_globs(builder).len() == 0,
{
    GlobSetBuilder::new()
}

/// Calls `GlobSetBuilder::add`, which appends the glob to those that the
/// builder holds.
#[verifier::external_body]
pub(crate) fn add_glob(builder: &mut GlobSetBuilder, glob: Glob)
    ensures
        builder_globs(*final(builder)) == builder_globs(*old(builder)).push(glob_text(glob)),
{
    builder.add(glob);
}

/// Calls `GlobSetBuilder::build`: the set of the globs that the builder
/// holds, or the message of the error. Both depend on those globs alone,
/// and the globs that reach a builder here are those of [`parse_glob`],
/// which their patterns determine.
#[verifier::external_body]
pub(crate) fn build_set(builder: &GlobSetBuilder) -> (result: Result<GlobSet, String>)
    ensures
        match result {
            Ok(set) => set_complaint(builder_globs(*builder)) is None && set_globs(set)
                == builder_globs(*builder),
            Err(message) => set_complaint(builder_globs(*builder)) == Some(message@),
        },
{
    match builder.build() {
        Ok(set) => Ok(set),
        Err(error) => Err(error.to_string()),
    }
}

/// Calls `GlobSet::is_match`, whose answer depends on the set and the
/// path alone.
#[verifier::external_body]
pub(crate) fn set_matches(set: &GlobSet, path: &Path) -> (matched: bool)
    ensures
        matched == glob_set_matches(*set, path),
{
    set.is_match(path)
}

/// Calls `Path::ancestors` and collects what it yields.
#[verifier::external_body]
pub(crate) fn ancestors_of<'a>(path: &'a Path) -> (ancestors: Vec<&'a Path>)
    ensures
        ancestors@ == path_ancestors(path),
{
    path.ancestors().collect()
}

/// The position of the first of `patterns` that is no valid glob, or
/// `patterns.len()` where all are.
pub open spec fn first_invalid(patterns: Seq<Seq<char>>) -> int
    decreases patterns.len(),
{
    if patterns.len() == 0 {
        0
    } else if glob_complaint(patterns[0]) is Some {
        0
    } else {
        1 + first_invalid(patterns.drop_first())
    }
}

/// The message for a pattern that is no valid glob.
pub open spec fn invalid_glob_message(pattern: Seq<char>, complaint: Seq<char>) -> Seq<char> {
    "Invalid glob pattern '"@ + pattern + "': "@ + complaint
}

/// The message with which a set of `patterns` cannot be built, or `None`
/// where it can: the first pattern that is no valid glob is named, else
/// what the builder says against the set.
pub open spec fn glob_set_complaint(patterns: Seq<Seq<char>>) -> Option<Seq<char>> {
    let at = first_invalid(patterns);
    if 0 <= at < patterns.len() {
        Some(invalid_glob_message(patterns[at], glob_complaint(patterns[at])->Some_0))
    } else if set_complaint(patterns) is Some {
        Some("Failed to build glob set: "@ + set_complaint(patterns)->Some_0)
    } else {
        None
    }
}

/// The first invalid pattern is where one stands with none before it.
proof fn lemma_first_invalid_at(patterns: Seq<Seq<char>>, k: int)
    requires
        0 <= k <= patterns.len(),
        forall|j: int| 0 <= j < k ==> glob_complaint(#[trigger] patterns[j]) is None,
        k < patterns.len() ==> glob_complaint(patterns[k]) is Some,
    ensures
        first_invalid(patterns) == k,
    decreases patterns.len(),
{
    if patterns.len() > 0 && k > 0 {
        let rest = patterns.drop_first();
        assert forall|j: int| 0 <= j < k - 1 implies glob_complaint(#[trigger] rest[j])
            is None by {
            assert(rest[j] == patterns[j + 1]);
        }
        assert(patterns[0] == patterns[0]);
        lemma_first_invalid_at(rest, k - 1);
    }
}

/// Builds the set of the globs that `patterns` name.
pub fn build_globset(patterns: &Vec<String>) -> (result: Result<GlobSet, Error>)
    ensures
        match glob_set_complaint(texts(patterns@)) {
            Some(complaint) => result matches Err(Error::Config { message }) && message@
                == complaint,
            None => result matches Ok(set) && set_globs(set) == texts(patterns@),
        },
{
    let mut builder = new_builder();
    let ghost all = texts(patterns@);
    let mut i: usize = 0;
    proof {
        assert(builder_globs(builder) == all.take(0));
    }
    while i < patterns.len()
        invariant
            i <= patterns@.len(),
            all == texts(patterns@),
            builder_globs(builder) == all.take(i as int),
            forall|j: int| 0 <= j < i ==> glob_complaint(#[trigger] all[j]) is None,
        decreases patterns@.len() - i,
    {
        match parse_glob(patterns[i].as_str()) {
            Ok(glob) => {
                proof {
                    assert(all.take(i + 1) == all.take(i as int).push(all[i as int]));
                }
                add_glob(&mut builder, glob);
            },
            Err(complaint) => {
                proof {
                    lemma_first_invalid_at(all, i as int);
                }
                let mut message = "Invalid glob pattern '".to_owned();
                message.append(patterns[i].as_str());
                message.append("': ");
                message.append(complaint.as_str());
                return Err(Error::config(message.as_str()));
            },
        }
        i = i + 1;
    }
    proof {
        lemma_first_invalid_at(all, all.len() as int);
        assert(all.take(all.len() as int) == all);
    }
    match build_set(&builder) {
        Ok(set) => Ok(set),
        Err(complaint) => {
            let mut message = "Failed to build glob set: ".to_owned();
            message.append(complaint.as_str());
            Err(Error::config(message.as_str()))
        },
    }
}

/// Decides by glob patterns which files are processed.
pub struct FileFilter {
    /// The files to leave out.
    pub exclude_files: GlobSet,
    /// The only files to take, where there is such a list.
    pub include_files: Option<GlobSet>,
    /// The directories to leave out, with all below them.
    pub exclude_directories: GlobSet,
}

impl FileFilter {
    /// Whether this filter holds the patterns of `config`; the list of the
    /// only files to take counts where it is not empty.
    pub open spec fn built_from(&self, config: FileFilterConfig) -> bool {
        &&& set_globs(self.exclude_files) == texts(config.exclude_files@)
        &&& set_globs(self.exclude_directories) == texts(config.exclude_directories@)
        &&& match self.include_files {
            Some(set) => config.exclude_all_files_except@.len() > 0 && set_globs(set) == texts(
                config.exclude_all_files_except@,
            ),
            None => config.exclude_all_files_except@.len() == 0,
        }
    }

    /// What is wrong with the patterns of `config`, or `None`: the files
    /// to leave out are looked at first, then the directories, then the
    /// only files to take.
    pub open spec fn complaint(config: FileFilterConfig) -> Option<Seq<char>> {
        if glob_set_complaint(texts(config.exclude_files@)) is Some {
            glob_set_complaint(texts(config.exclude_files@))
        } else if glob_set_complaint(texts(config.exclude_directories@)) is Some {
            glob_set_complaint(texts(config.exclude_directories@))
        } else if config.exclude_all_files_except@.len() > 0 {
            glob_set_complaint(texts(config.exclude_all_files_except@))
        } else {
            None
        }
    }

    /// Creates the filter for a configuration whose patterns are valid.
    pub fn new(config: FileFilterConfig) -> (filter: Self)
        requires
            Self::complaint(config) is None,
        ensures
            filter.built_from(config),
    {
        match Self::try_new(config) {
            Ok(filter) => filter,
            Err(_) => vstd::pervasive::unreached(),
        }
    }

    /// Creates the filter for a configuration, or says what is wrong with
    /// its patterns.
    pub fn try_new(config: FileFilterConfig) -> (result: Result<Self, Error>)
        ensures
            match Self::complaint(config) {
                Some(complaint) => result matches Err(Error::Config { message }) && message@
                    == complaint,
                None => result matches Ok(filter) && filter.built_from(config),
            },
    {
        let exclude_files = match build_globset(&config.exclude_files) {
            Ok(set) => set,
            Err(error) => {
                return Err(error);
            },
        };
        let exclude_directories = match build_globset(&config.exclude_directories) {
            Ok(set) => set,
            Err(error) => {
                return Err(error);
            },
        };
        let include_files = if config.exclude_all_files_except.len() == 0 {
            None
        } else {
            match build_globset(&config.exclude_all_files_except) {
                Ok(set) => Some(set),
                Err(error) => {
                    return Err(error);
                },
            }
        };
        Ok(Self { exclude_files, include_files, exclude_directories })
    }

    /// Whether a path is processed: it is among the only files to take,
    /// where there is such a list; neither it nor a path above it is a
    /// directory to leave out; and it is no file to leave out.
    pub open spec fn processes(&self, path: &Path) -> bool {
        &&& self.include_files matches Some(only) ==> glob_set_matches(only, path)
        &&& !glob_set_matches(self.exclude_directories, path)
        &&& forall|i: int|
            1 <= i < path_ancestors(path).len() ==> !glob_set_matches(
                self.exclude_directories,
                #[trigger] path_ancestors(path)[i],
            )
        &&& !glob_set_matches(self.exclude_files, path)
    }

    /// Decides whether the file at `path` is processed.
    pub fn should_process(&self, path: &Path) -> (process: bool)
        ensures
            process == self.processes(path),
    {
        match &self.include_files {
            Some(only) => {
                if !set_matches(only, path) {
                    return false;
                }
            },
            None => {},
        }
        if set_matches(&self.exclude_directories, path) {
            return false;
        }
        let ancestors = ancestors_of(path);
        let mut i: usize = 1;
        while i < ancestors.len()
            invariant
                1 <= i,
                ancestors@ == path_ancestors(path),
                forall|j: int|
                    1 <= j < i && j < ancestors@.len() ==> !glob_set_matches(
                        self.exclude_directories,
                        #[trigger] ancestors@[j],
                    ),
            decreases ancestors@.len() - i,
        {
            if set_matches(&self.exclude_directories, ancestors[i]) {
                return false;
            }
            i = i + 1;
        }
        if set_matches(&self.exclude_files, path) {
            return false;
        }
        true
    }
}

} // verus!
