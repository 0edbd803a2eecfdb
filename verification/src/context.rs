//! Which workspace files go into the model's context, and the bundle they are gathered in.
use vstd::prelude::*;
use crate::patterns::{compile_glob, glob_is_match, glob_matches, glob_valid};
use crate::text::{chars_of, concat2, owned, push_char, push_decimal, push_str, strs, decimal};

verus! {

/// std's owned file-system path, carried through.
#[verifier::external_type_specification]
#[verifier::external_body]
pub struct ExPathBuf(std::path::PathBuf);

/// Whether a glob pattern matches a relative path, or the path with `"./"` before it. A
/// pattern that glob rejects is replaced by `"**"`.
pub open spec fn glob_match_spec(pattern: Seq<char>, path: Seq<char>) -> bool {
    let p = if glob_valid(pattern) { pattern } else { "**"@ };
    glob_valid(p) && (glob_matches(p, path) || glob_matches(p, "./"@ + path))
}

/// Some pattern of `patterns` matches the path.
pub open spec fn any_match(patterns: Seq<Seq<char>>, path: Seq<char>) -> bool {
    exists|i: int| 0 <= i < patterns.len() && glob_match_spec(patterns[i], path)
}

/// The first `min(len, 8192)` bytes hold a zero byte.
pub open spec fn binary_spec(data: Seq<u8>) -> bool {
    exists|i: int| 0 <= i < data.len() && i < 8192 && data[i] == 0
}

/// The text that std's `String::from_utf8_lossy` makes of bytes: their UTF-8 text, each
/// invalid sequence replaced by U+FFFD.
pub uninterp spec fn lossy_text(bytes: Seq<u8>) -> Seq<char>;

/// std's `String::from_utf8_lossy`, the result taken as an owned `String`; the result is
/// named by `lossy_text`. Bytes that are valid UTF-8 decode to their own text, as its
/// documentation says.
#[verifier::external_body]
fn decode_lossy(bytes: &[u8]) -> (r: String)
    ensures
        r@ == lossy_text(bytes@),
        vstd::utf8::valid_utf8(bytes@) ==> r@ == vstd::utf8::decode_utf8(bytes@),
{
    String::from_utf8_lossy(bytes).into_owned()
}

/// What to do with a file found while gathering context.
#[derive(Debug, PartialEq, Eq)]
pub enum Selection {
    /// Excluded, or not matched by the patterns: pass over it.
    Ignored,
    /// Larger than allowed: record it as skipped without reading it.
    TooLarge,
    /// Read it, then keep it unless it looks binary.
    Read,
}

/// A file taken into the context.
#[derive(Debug)]
pub struct FileEntry {
    pub path: std::path::PathBuf,
    pub content: String,
    pub size_bytes: usize,
}

/// The files taken into the context, the paths passed over for their size or content, and
/// the total size of the files taken.
#[derive(Debug)]
pub struct ContextBundle {
    pub files: Vec<FileEntry>,
    pub skipped: Vec<std::path::PathBuf>,
    pub total_bytes: usize,
}

/// The sum of the sizes of the files.
pub open spec fn sizes(files: Seq<FileEntry>) -> nat
    decreases files.len(),
{
    if files.len() == 0 {
        0
    } else {
        sizes(files.drop_last()) + files.last().size_bytes as nat
    }
}

impl ContextBundle {
    /// The total is the sum of the sizes of the files taken.
    pub open spec fn wf(&self) -> bool {
        self.total_bytes == sizes(self.files@)
    }

    /// An empty bundle.
    pub fn new() -> (r: ContextBundle)
        ensures
            r.files@.len() == 0,
            r.skipped@.len() == 0,
            r.total_bytes == 0,
            r.wf(),
    {
        ContextBundle { files: Vec::new(), skipped: Vec::new(), total_bytes: 0 }
    }

    /// Takes a file into the bundle.
    pub fn add_file(&mut self, path: std::path::PathBuf, content: String, size_bytes: usize)
        requires
            old(self).wf(),
            old(self).total_bytes + size_bytes <= usize::MAX,
        ensures
            final(self).wf(),
            final(self).total_bytes == old(self).total_bytes + size_bytes,
            final(self).files@.len() == old(self).files@.len() + 1,
            final(self).files@.drop_last() == old(self).files@,
            final(self).files@.last().path == path,
            final(self).files@.last().content@ == content@,
            final(self).files@.last().size_bytes == size_bytes,
            final(self).skipped@ == old(self).skipped@,
    {
        let ghost before = self.files@;
        self.total_bytes = self.total_bytes + size_bytes;
        self.files.push(FileEntry { path, content, size_bytes });
        assert(self.files@.drop_last() =~= before);
    }

    /// Takes a file that was read, with `raw` its bytes and `size` its size: a binary one
    /// (a zero byte in its first 8192 bytes) is recorded as skipped; any other is taken with
    /// its bytes decoded as UTF-8, invalid sequences replaced, and its size added to the total.
    pub fn take_read(&mut self, path: std::path::PathBuf, raw: &[u8], size: usize)
        requires
            old(self).wf(),
            !binary_spec(raw@) ==> old(self).total_bytes + size <= usize::MAX,
        ensures
            final(self).wf(),
            binary_spec(raw@) ==> final(self).skipped@ == old(self).skipped@.push(path) && final(self).files@ == old(self).files@
                && final(self).total_bytes == old(self).total_bytes,
            !binary_spec(raw@) ==> {
                &&& final(self).skipped@ == old(self).skipped@
                &&& final(self).total_bytes == old(self).total_bytes + size
                &&& final(self).files@.len() == old(self).files@.len() + 1
                &&& final(self).files@.drop_last() == old(self).files@
                &&& final(self).files@.last().path == path
                &&& final(self).files@.last().content@ == lossy_text(raw@)
                &&& final(self).files@.last().size_bytes == size
            },
    {
        if ContextGatherer::is_binary(raw) {
            self.skip(path);
        } else {
            let content = decode_lossy(raw);
            self.add_file(path, content, size);
        }
    }

    /// Records a path passed over.
    pub fn skip(&mut self, path: std::path::PathBuf)
        ensures
            final(self).skipped@ == old(self).skipped@.push(path),
            final(self).files@ == old(self).files@,
            final(self).total_bytes == old(self).total_bytes,
    {
        self.skipped.push(path);
    }
}

impl Default for ContextBundle {
    fn default() -> (r: ContextBundle)
        ensures
            r.files@.len() == 0,
            r.skipped@.len() == 0,
            r.total_bytes == 0,
    {
        ContextBundle::new()
    }
}

/// Whether some pattern matches the path.
pub fn any_pattern_matches(patterns: &[String], path: &str) -> (r: bool)
    ensures
        r == any_match(strs(patterns@), path@),
{
    let n = patterns.len();
    let mut i: usize = 0;
    while i < n
        invariant
            n == patterns@.len(),
            i <= n,
            forall|k: int| 0 <= k < i ==> !glob_match_spec(strs(patterns@)[k], path@),
        decreases n - i,
    {
        if ContextGatherer::glob_match(patterns[i].as_str(), path) {
            assert(strs(patterns@)[i as int] == patterns@[i as int]@);
            return true;
        }
        assert(strs(patterns@)[i as int] == patterns@[i as int]@);
        i = i + 1;
    }
    false
}

/// A relative path with its `'\\'` separators written as `'/'`.
pub open spec fn normalized(path: Seq<char>) -> Seq<char> {
    path.map_values(|c: char| if c == '\\' { '/' } else { c })
}

/// Writes the separators of a relative path as `'/'`.
pub fn normalize_separators(path: &str) -> (r: String)
    ensures
        r@ == normalized(path@),
{
    let cs = chars_of(path);
    let mut out = String::new();
    let n = cs.len();
    let mut i: usize = 0;
    while i < n
        invariant
            n == cs@.len(),
            i <= n,
            out@ == normalized(cs@.take(i as int)),
        decreases n - i,
    {
        let c = if cs[i] == '\\' { '/' } else { cs[i] };
        push_char(&mut out, c);
        assert(out@ =~= normalized(cs@.take(i + 1)));
        i = i + 1;
    }
    assert(cs@.take(n as int) =~= cs@);
    out
}

/// Chooses which workspace files go into the context.
#[derive(Debug)]
pub struct ContextGatherer {
    pub max_file_size: usize,
    pub include_patterns: Vec<String>,
    pub exclude_patterns: Vec<String>,
}

impl ContextGatherer {
    /// Whether a glob pattern matches a relative path (or the path after `"./"`); a pattern
    /// that glob rejects is replaced by `"**"`.
    pub fn glob_match(pattern: &str, path: &str) -> (r: bool)
        ensures
            r == glob_match_spec(pattern@, path@),
    {
        let dotted = concat2("./", path);
        proof {
            reveal_strlit("./");
            reveal_strlit("**");
        }
        match compile_glob(pattern) {
            Some(g) => glob_is_match(&g, path) || glob_is_match(&g, dotted.as_str()),
            None => match compile_glob("**") {
                Some(g) => glob_is_match(&g, path) || glob_is_match(&g, dotted.as_str()),
                None => false,
            },
        }
    }

    /// Whether the first 8192 bytes (or all, when fewer) hold a zero byte.
    pub fn is_binary(data: &[u8]) -> (r: bool)
        ensures
            r == binary_spec(data@),
    {
        let check_len = if data.len() < 8192 { data.len() } else { 8192 };
        let mut i: usize = 0;
        while i < check_len
            invariant
                check_len <= data@.len(),
                check_len <= 8192,
                check_len == data@.len() || check_len == 8192,
                i <= check_len,
                forall|k: int| 0 <= k < i ==> data@[k] != 0,
            decreases check_len - i,
        {
            if data[i] == 0 {
                return true;
            }
            i = i + 1;
        }
        false
    }
}

/// A copy of a list of strings.
pub fn clone_strings(v: &Vec<String>) -> (r: Vec<String>)
    ensures
        strs(r@) == strs(v@),
{
    let mut r: Vec<String> = Vec::new();
    let n = v.len();
    let mut i: usize = 0;
    while i < n
        invariant
            n == v@.len(),
            i <= n,
            strs(r@) == strs(v@).take(i as int),
        decreases n - i,
    {
        let x = v[i].clone();
        let ghost before = r@;
        r.push(x);
        proof {
            crate::text::lemma_strs_push(before, x);
            assert(strs(v@)[i as int] == v@[i as int]@);
        }
        assert(strs(r@) =~= strs(v@).take(i + 1));
        i = i + 1;
    }
    assert(strs(v@).take(n as int) =~= strs(v@));
    r
}

/// A list of strings made of the given literals.
pub fn strings_of(items: &[&str]) -> (r: Vec<String>)
    ensures
        r@.len() == items@.len(),
        forall|i: int| 0 <= i < items@.len() ==> r@[i]@ == items@[i]@,
{
    let mut r: Vec<String> = Vec::new();
    let n = items.len();
    let mut i: usize = 0;
    while i < n
        invariant
            n == items@.len(),
            i <= n,
            r@.len() == i,
            forall|k: int| 0 <= k < i ==> r@[k]@ == items@[k]@,
        decreases n - i,
    {
        r.push(owned(items[i]));
        i = i + 1;
    }
    r
}

impl ContextGatherer {
    /// A gatherer with the given size limit and patterns.
    pub fn new(max_file_size: usize, include_patterns: Vec<String>, exclude_patterns: Vec<String>) -> (r: ContextGatherer)
        ensures
            r.max_file_size == max_file_size,
            r.include_patterns@ == include_patterns@,
            r.exclude_patterns@ == exclude_patterns@,
    {
        ContextGatherer { max_file_size, include_patterns, exclude_patterns }
    }

    /// Whether some exclusion pattern matches the path.
    pub fn is_excluded(&self, rel: &str) -> (r: bool)
        ensures
            r == any_match(strs(self.exclude_patterns@), rel@),
    {
        any_pattern_matches(self.exclude_patterns.as_slice(), rel)
    }

    /// Whether the path is wanted: there are no patterns, or one of them matches.
    pub fn matches_patterns(&self, rel: &str, patterns: &[String]) -> (r: bool)
        ensures
            r == (patterns@.len() == 0 || any_match(strs(patterns@), rel@)),
    {
        patterns.len() == 0 || any_pattern_matches(patterns, rel)
    }

    /// The patterns that decide what is wanted: those given, or the gatherer's own when none
    /// are given.
    pub open spec fn effective_patterns(&self, patterns: Seq<String>) -> Seq<Seq<char>> {
        if patterns.len() == 0 {
            strs(self.include_patterns@)
        } else {
            strs(patterns)
        }
    }

    /// What to do with the file at `rel` (relative, with `'/'` separators) of `size` bytes.
    pub fn select(&self, rel: &str, patterns: &[String], size: usize) -> (r: Selection)
        ensures
            r == (if any_match(strs(self.exclude_patterns@), rel@) {
                Selection::Ignored
            } else if !(self.effective_patterns(patterns@).len() == 0 || any_match(self.effective_patterns(patterns@), rel@)) {
                Selection::Ignored
            } else if size > self.max_file_size {
                Selection::TooLarge
            } else {
                Selection::Read
            }),
    {
        if self.is_excluded(rel) {
            return Selection::Ignored;
        }
        let wanted = if patterns.len() == 0 {
            self.matches_patterns(rel, self.include_patterns.as_slice())
        } else {
            self.matches_patterns(rel, patterns)
        };
        if !wanted {
            return Selection::Ignored;
        }
        if size > self.max_file_size {
            Selection::TooLarge
        } else {
            Selection::Read
        }
    }

    /// The warning printed for a file passed over for its size.
    pub fn oversize_warning(&self, rel: &str) -> (r: String)
        ensures
            r@ == "WARN: skipping "@ + rel@ + " \u{2014} exceeds "@ + decimal(self.max_file_size as nat) + " bytes"@,
    {
        let mut s = concat2("WARN: skipping ", rel);
        push_str(&mut s, " \u{2014} exceeds ");
        push_decimal(&mut s, self.max_file_size as u64);
        push_str(&mut s, " bytes");
        s
    }
}

impl Default for ContextGatherer {
    /// Files of up to 1 MiB, every path, except the build and version-control directories.
    fn default() -> (r: ContextGatherer)
        ensures
            r.max_file_size == 1_048_576,
            strs(r.include_patterns@) == seq!["**/*"@],
            strs(r.exclude_patterns@) == seq!["target/**"@, ".git/**"@],
    {
        let inc = strings_of(&["**/*"]);
        let exclude = strings_of(&["target/**", ".git/**"]);
        assert(strs(inc@) =~= seq!["**/*"@]);
        assert(strs(exclude@) =~= seq!["target/**"@, ".git/**"@]);
        ContextGatherer { max_file_size: 1_048_576, include_patterns: inc, exclude_patterns: exclude }
    }
}

} // verus!
