//! What the built-in tools decide: their parameters, their policies and the text of their
//! results.
use vstd::prelude::*;
use crate::error::HummingbirdError;
use crate::json::JsonValue;
use crate::patterns::{LinePattern, compile_glob, compile_regex, glob_is_match, glob_matches, glob_valid, regex_error_text, regex_is_match, regex_matches};
use crate::text::{
    byte_len, byte_len_of, concat2, concat3, decimal, decimal_int, has_prefix, join, lines, lines_spec, lowercase, owned, push_char, push_decimal, push_str, seq_join, sort_strings, sorted_strs,
    starts_with, strs, to_lowercase, trim, trim_spec,
};

verus! {

/// What a tool returned: its text, and whether that text reports a failure.
#[derive(Debug)]
pub struct ToolResult {
    pub output: String,
    pub is_error: bool,
}

impl ToolResult {
    /// A successful result.
    pub fn ok(output: &str) -> (r: ToolResult)
        ensures
            r.output@ == output@,
            !r.is_error,
    {
        ToolResult { output: owned(output), is_error: false }
    }

    /// A result that reports a failure.
    pub fn err(output: &str) -> (r: ToolResult)
        ensures
            r.output@ == output@,
            r.is_error,
    {
        ToolResult { output: owned(output), is_error: true }
    }
}

/// The error of a required string parameter that is missing.
pub open spec fn missing_param_message(key: Seq<char>) -> Seq<char> {
    "missing '"@ + key + "' parameter"@
}

/// The string parameter `key`, or the error that it is missing.
pub fn required_str_param(params: &JsonValue, key: &str) -> (r: Result<String, HummingbirdError>)
    ensures
        r is Ok <==> params.spec_str_field(key@) is Some,
        r matches Ok(v) ==> params.spec_str_field(key@) == Some(v@),
        r matches Err(e) ==> e matches HummingbirdError::Tool(m) && m@ == missing_param_message(key@),
{
    match params.str_field(key) {
        Some(v) => Ok(v),
        None => {
            let m = concat3("missing '", key, "' parameter");
            Err(HummingbirdError::Tool(m))
        },
    }
}

// ---------------------------------------------------------------------------------------------
// Parameter schemas
// ---------------------------------------------------------------------------------------------

/// `v` is the JSON string `s`.
pub open spec fn str_is(v: JsonValue, s: Seq<char>) -> bool {
    v matches JsonValue::Str(x) && x@ == s
}

/// `v` is the schema of one property: `{"description": desc, "type": ty}`.
pub open spec fn property_is(v: JsonValue, ty: Seq<char>, desc: Seq<char>) -> bool {
    &&& v matches JsonValue::Object(ms)
    &&& ms@.len() == 2
    &&& ms@[0].0@ == "description"@
    &&& str_is(ms@[0].1, desc)
    &&& ms@[1].0@ == "type"@
    &&& str_is(ms@[1].1, ty)
}

/// `v` is an object whose members are the named properties, in order, each with its type
/// and description.
pub open spec fn properties_are(v: JsonValue, props: Seq<(Seq<char>, Seq<char>, Seq<char>)>) -> bool {
    &&& v matches JsonValue::Object(ms)
    &&& ms@.len() == props.len()
    &&& forall|i: int|
        0 <= i < props.len() ==> #[trigger] ms@[i].0@ == props[i].0 && property_is(ms@[i].1, props[i].1, props[i].2)
}

/// `v` is an array of the strings `ss`, in order.
pub open spec fn strings_are(v: JsonValue, ss: Seq<Seq<char>>) -> bool {
    &&& v matches JsonValue::Array(xs)
    &&& xs@.len() == ss.len()
    &&& forall|i: int| 0 <= i < ss.len() ==> str_is(#[trigger] xs@[i], ss[i])
}

/// `v` is the parameter schema of a tool: an object with the given properties, of which the
/// `required` ones must be given. Members are in key order, as serde_json's map keeps them.
pub open spec fn schema_is(
    v: JsonValue,
    props: Seq<(Seq<char>, Seq<char>, Seq<char>)>,
    required: Seq<Seq<char>>,
) -> bool {
    &&& v matches JsonValue::Object(ms)
    &&& ms@.len() == 3
    &&& ms@[0].0@ == "properties"@
    &&& properties_are(ms@[0].1, props)
    &&& ms@[1].0@ == "required"@
    &&& strings_are(ms@[1].1, required)
    &&& ms@[2].0@ == "type"@
    &&& str_is(ms@[2].1, "object"@)
}

fn json_str(s: &str) -> (r: JsonValue)
    ensures
        str_is(r, s@),
{
    JsonValue::Str(owned(s))
}

fn property(ty: &str, desc: &str) -> (r: JsonValue)
    ensures
        property_is(r, ty@, desc@),
{
    let mut ms: Vec<(String, JsonValue)> = Vec::new();
    ms.push((owned("description"), json_str(desc)));
    ms.push((owned("type"), json_str(ty)));
    JsonValue::Object(ms)
}

fn string_list(items: &[&str]) -> (r: JsonValue)
    ensures
        strings_are(r, items@.map_values(|s: &str| s@)),
{
    let mut xs: Vec<JsonValue> = Vec::new();
    let mut i: usize = 0;
    while i < items.len()
        invariant
            i <= items@.len(),
            xs@.len() == i,
            forall|k: int| 0 <= k < i ==> str_is(#[trigger] xs@[k], items@[k]@),
        decreases items@.len() - i,
    {
        xs.push(json_str(items[i]));
        i = i + 1;
    }
    JsonValue::Array(xs)
}

/// The schema object: the properties (given in key order), the required names, and the type.
fn object_schema(props: Vec<(String, JsonValue)>, required: JsonValue) -> (r: JsonValue)
    ensures
        r matches JsonValue::Object(ms) && ms@.len() == 3 && ms@[0].0@ == "properties"@ && ms@[0].1
            == JsonValue::Object(props) && ms@[1].0@ == "required"@ && ms@[1].1 == required && ms@[2].0@
            == "type"@ && str_is(ms@[2].1, "object"@),
{
    let mut ms: Vec<(String, JsonValue)> = Vec::new();
    ms.push((owned("properties"), JsonValue::Object(props)));
    ms.push((owned("required"), required));
    ms.push((owned("type"), json_str("object")));
    JsonValue::Object(ms)
}

/// What a registry tells about a tool: `{"description": ..., "name": ..., "parameters": ...}`,
/// members in key order.
pub fn tool_descriptor(name: &str, description: &str, parameters: JsonValue) -> (r: JsonValue)
    ensures
        r matches JsonValue::Object(ms) && ms@.len() == 3 && ms@[0].0@ == "description"@ && str_is(
            ms@[0].1,
            description@,
        ) && ms@[1].0@ == "name"@ && str_is(ms@[1].1, name@) && ms@[2].0@ == "parameters"@ && ms@[2].1
            == parameters,
{
    let mut ms: Vec<(String, JsonValue)> = Vec::new();
    ms.push((owned("description"), json_str(description)));
    ms.push((owned("name"), json_str(name)));
    ms.push((owned("parameters"), parameters));
    JsonValue::Object(ms)
}

// ---------------------------------------------------------------------------------------------
// read_file, write_file, list_directory
// ---------------------------------------------------------------------------------------------

/// Reads a file.
#[derive(Debug)]
pub struct ReadFile;

impl ReadFile {

    /// The parameters the tool takes: the file's `path`.
    pub fn parameters_schema(&self) -> (r: JsonValue)
        ensures
            schema_is(r, seq![("path"@, "string"@, "Absolute or relative path to the file"@)], seq!["path"@]),
    {
        let mut props: Vec<(String, JsonValue)> = Vec::new();
        props.push((owned("path"), property("string", "Absolute or relative path to the file")));
        let req = string_list(&["path"]);
        assert(["path"]@.map_values(|s: &str| s@) =~= seq!["path"@]);
        object_schema(props, req)
    }
    /// The tool's name.
    pub fn name(&self) -> (r: &'static str)
        ensures
            r@ == "read_file"@,
    {
        "read_file"
    }

    /// What the tool does.
    pub fn description(&self) -> (r: &'static str)
        ensures
            r@ == "Read the contents of a file at the given path."@,
    {
        "Read the contents of a file at the given path."
    }

    /// The tool's result for a read of `path` that gave the file's text, or the message of
    /// the error that stopped it.
    pub fn outcome(path: &str, read: Result<String, String>) -> (r: ToolResult)
        ensures
            read matches Ok(c) ==> !r.is_error && r.output@ == c@,
            read matches Err(m) ==> r.is_error && r.output@ == "Failed to read '"@ + path@ + "': "@ + m@,
    {
        match read {
            Ok(c) => ToolResult { output: c, is_error: false },
            Err(m) => {
                let mut s = concat3("Failed to read '", path, "': ");
                push_str(&mut s, m.as_str());
                ToolResult { output: s, is_error: true }
            },
        }
    }
}

/// The answer to a request that would overwrite the file at `path` without confirmation.
pub open spec fn overwrite_refusal(path: Seq<char>) -> Seq<char> {
    "File '"@ + path + "' already exists; set \"confirm\" to true to overwrite it"@
}

/// What the write tool does with a request.
#[derive(Debug)]
pub enum WritePlan {
    /// Nothing is written; the request is answered with this result.
    Refuse(ToolResult),
    /// The content is written to the path.
    Write { path: String, content: String },
}

/// Writes a file, creating its parent directories.
#[derive(Debug)]
pub struct WriteFile;

impl WriteFile {

    /// The parameters the tool takes: the `path` to write and the `content`, and `confirm`,
    /// which must be `true` for a file that exists already to be overwritten.
    pub fn parameters_schema(&self) -> (r: JsonValue)
        ensures
            schema_is(
                r,
                seq![
                    ("confirm"@, "boolean"@, "Set to true to overwrite an existing file"@),
                    ("content"@, "string"@, "Content to write"@),
                    ("path"@, "string"@, "Path to write to"@),
                ],
                seq!["path"@, "content"@],
            ),
    {
        let mut props: Vec<(String, JsonValue)> = Vec::new();
        props.push((owned("confirm"), property("boolean", "Set to true to overwrite an existing file")));
        props.push((owned("content"), property("string", "Content to write")));
        props.push((owned("path"), property("string", "Path to write to")));
        let req = string_list(&["path", "content"]);
        assert(["path", "content"]@.map_values(|s: &str| s@) =~= seq!["path"@, "content"@]);
        object_schema(props, req)
    }
    /// The tool's name.
    pub fn name(&self) -> (r: &'static str)
        ensures
            r@ == "write_file"@,
    {
        "write_file"
    }

    /// What the tool does.
    pub fn description(&self) -> (r: &'static str)
        ensures
            r@ == "Write content to a file, creating parent directories as needed. Requires explicit confirmation before overwriting."@,
    {
        "Write content to a file, creating parent directories as needed. Requires explicit confirmation before overwriting."
    }

    /// The request confirms that an existing file may be overwritten: its `confirm` member is
    /// `true`.
    pub open spec fn confirmed(params: JsonValue) -> bool {
        params.spec_index("confirm"@).spec_as_bool() == Some(true)
    }

    /// Decides what to do with a request, given whether a file exists at its path already:
    /// without a `path`, or then without a `content`, it is an error; a file that exists is
    /// overwritten only when the request confirms it, else the request is answered with an
    /// error result and nothing is written; otherwise the content is written.
    pub fn plan(params: &JsonValue, target_exists: bool) -> (r: Result<WritePlan, HummingbirdError>)
        ensures
            r is Err <==> params.spec_str_field("path"@) is None || params.spec_str_field("content"@) is None,
            r matches Err(e) ==> e matches HummingbirdError::Tool(m) && m@ == missing_param_message(
                if params.spec_str_field("path"@) is None { "path"@ } else { "content"@ },
            ),
            r matches Ok(p) ==> (p is Refuse <==> target_exists && !Self::confirmed(*params)),
            r matches Ok(WritePlan::Refuse(t)) ==> params.spec_str_field("path"@) matches Some(path) && t.is_error
                && t.output@ == overwrite_refusal(path),
            r matches Ok(WritePlan::Write { path, content }) ==> params.spec_str_field("path"@) == Some(path@)
                && params.spec_str_field("content"@) == Some(content@),
    {
        let path = match required_str_param(params, "path") {
            Ok(p) => p,
            Err(e) => return Err(e),
        };
        let content = match required_str_param(params, "content") {
            Ok(c) => c,
            Err(e) => return Err(e),
        };
        let confirm = params.bool_field("confirm");
        if target_exists && !(confirm == Some(true)) {
            let mut s = concat3("File '", path.as_str(), "' already exists; set \"confirm\" to true to overwrite it");
            proof {
                assert(s@ =~= overwrite_refusal(path@));
            }
            return Ok(WritePlan::Refuse(ToolResult { output: s, is_error: true }));
        }
        Ok(WritePlan::Write { path, content })
    }

    /// The tool's result after `content` was written to `path`.
    pub fn written(path: &str, content: &str) -> (r: ToolResult)
        ensures
            !r.is_error,
            r.output@ == "Written "@ + decimal(byte_len(content@)) + " bytes to '"@ + path@ + "'"@,
    {
        let mut s = owned("Written ");
        push_decimal(&mut s, byte_len_of(content) as u64);
        push_str(&mut s, " bytes to '");
        push_str(&mut s, path);
        push_char(&mut s, '\'');
        proof {
            reveal_strlit("'");
            assert(s@ =~= "Written "@ + decimal(byte_len(content@)) + " bytes to '"@ + path@ + "'"@);
        }
        ToolResult { output: s, is_error: false }
    }
}

/// Lists a directory.
#[derive(Debug)]
pub struct ListDirectory;

/// A directory entry as listed: its name, with `'/'` after it for a directory.
pub open spec fn entry_line(name: Seq<char>, is_dir: bool) -> Seq<char> {
    if is_dir {
        name + "/"@
    } else {
        name
    }
}

/// A directory entry: its name and whether it is a directory.
#[derive(Debug)]
pub struct DirEntryInfo {
    pub name: String,
    pub is_dir: bool,
}

impl ListDirectory {

    /// The parameters the tool takes: the directory's `path`.
    pub fn parameters_schema(&self) -> (r: JsonValue)
        ensures
            schema_is(r, seq![("path"@, "string"@, "Directory path to list"@)], seq!["path"@]),
    {
        let mut props: Vec<(String, JsonValue)> = Vec::new();
        props.push((owned("path"), property("string", "Directory path to list")));
        let req = string_list(&["path"]);
        assert(["path"]@.map_values(|s: &str| s@) =~= seq!["path"@]);
        object_schema(props, req)
    }
    /// The tool's name.
    pub fn name(&self) -> (r: &'static str)
        ensures
            r@ == "list_directory"@,
    {
        "list_directory"
    }

    /// What the tool does.
    pub fn description(&self) -> (r: &'static str)
        ensures
            r@ == "List files and directories at the given path."@,
    {
        "List files and directories at the given path."
    }

    /// The listing of a directory: one line per entry, sorted, joined with `'\n'`.
    pub fn listing(entries: &[DirEntryInfo]) -> (r: ToolResult)
        ensures
            !r.is_error,
            exists|ls: Seq<Seq<char>>| {
                &&& sorted_strs(ls)
                &&& ls.to_multiset() == entries@.map_values(|e: DirEntryInfo| entry_line(e.name@, e.is_dir)).to_multiset()
                &&& r.output@ == seq_join(ls, "\n"@)
            },
    {
        let mut names: Vec<String> = Vec::new();
        let n = entries.len();
        let mut i: usize = 0;
        while i < n
            invariant
                n == entries@.len(),
                i <= n,
                strs(names@) == entries@.take(i as int).map_values(|e: DirEntryInfo| entry_line(e.name@, e.is_dir)),
            decreases n - i,
        {
            let e = &entries[i];
            let line = if e.is_dir {
                concat2(e.name.as_str(), "/")
            } else {
                e.name.clone()
            };
            let ghost before = names@;
            names.push(line);
            proof {
                crate::text::lemma_strs_push(before, line);
                assert(strs(names@) =~= entries@.take(i + 1).map_values(|e: DirEntryInfo| entry_line(e.name@, e.is_dir)));
            }
            i = i + 1;
        }
        assert(entries@.take(n as int) =~= entries@);
        let sorted = sort_strings(names);
        let out = join(&sorted, "\n");
        ToolResult { output: out, is_error: false }
    }

    /// The tool's result when the directory cannot be read.
    pub fn cannot_list(path: &str, message: &str) -> (r: ToolResult)
        ensures
            r.is_error,
            r.output@ == "Cannot list '"@ + path@ + "': "@ + message@,
    {
        let mut s = concat3("Cannot list '", path, "': ");
        push_str(&mut s, message);
        ToolResult { output: s, is_error: true }
    }
}

// ---------------------------------------------------------------------------------------------
// search_files
// ---------------------------------------------------------------------------------------------

/// Searches file contents with a regular expression.
#[derive(Debug)]
pub struct SearchFiles;

/// A file that the search looked at: how its path is shown, its file name, and its text
/// (`None` when it could not be read as text).
#[derive(Debug)]
pub struct SearchedFile {
    pub display: String,
    pub file_name: String,
    pub content: Option<String>,
}

/// Whether a file name passes the optional glob filter; a filter that glob rejects is
/// replaced by `"*"`.
pub open spec fn name_passes(filter: Option<Seq<char>>, name: Seq<char>) -> bool {
    match filter {
        None => true,
        Some(g) => {
            let p = if glob_valid(g) { g } else { "*"@ };
            glob_valid(p) && glob_matches(p, name)
        },
    }
}

/// One reported match: `"{path}:{line number}: {line}"`.
pub open spec fn hit_line(display: Seq<char>, number: nat, line: Seq<char>) -> Seq<char> {
    display + ":"@ + decimal(number) + ": "@ + line
}

/// The reported matches among the lines of one file.
pub open spec fn line_hits(pattern: Seq<char>, display: Seq<char>, ls: Seq<Seq<char>>) -> Seq<Seq<char>>
    decreases ls.len(),
{
    if ls.len() == 0 {
        seq![]
    } else if regex_matches(pattern, ls.last()) {
        line_hits(pattern, display, ls.drop_last()).push(hit_line(display, ls.len(), ls.last()))
    } else {
        line_hits(pattern, display, ls.drop_last())
    }
}

/// The reported matches of a search over files, in order.
pub open spec fn search_hits(pattern: Seq<char>, filter: Option<Seq<char>>, files: Seq<SearchedFile>) -> Seq<Seq<char>>
    decreases files.len(),
{
    if files.len() == 0 {
        seq![]
    } else {
        let f = files.last();
        let earlier = search_hits(pattern, filter, files.drop_last());
        match f.content {
            Some(c) if name_passes(filter, f.file_name@) => earlier + line_hits(pattern, f.display@, lines_spec(c@)),
            _ => earlier,
        }
    }
}

/// What a search reports: its matches, one per line, or that there were none.
pub open spec fn search_report(hits: Seq<Seq<char>>) -> Seq<char> {
    if hits.len() == 0 {
        "No matches found."@
    } else {
        seq_join(hits, "\n"@)
    }
}

impl SearchFiles {

    /// The parameters the tool takes: the `root` to search, the `pattern`, and an optional
    /// file-name `glob`.
    pub fn parameters_schema(&self) -> (r: JsonValue)
        ensures
            schema_is(
                r,
                seq![
                    ("glob"@, "string"@, "Optional file glob filter (e.g. *.rs)"@),
                    ("pattern"@, "string"@, "Regex pattern to search for"@),
                    ("root"@, "string"@, "Root directory to search"@),
                ],
                seq!["root"@, "pattern"@],
            ),
    {
        let mut props: Vec<(String, JsonValue)> = Vec::new();
        props.push((owned("glob"), property("string", "Optional file glob filter (e.g. *.rs)")));
        props.push((owned("pattern"), property("string", "Regex pattern to search for")));
        props.push((owned("root"), property("string", "Root directory to search")));
        let req = string_list(&["root", "pattern"]);
        assert(["root", "pattern"]@.map_values(|s: &str| s@) =~= seq!["root"@, "pattern"@]);
        object_schema(props, req)
    }
    /// The tool's name.
    pub fn name(&self) -> (r: &'static str)
        ensures
            r@ == "search_files"@,
    {
        "search_files"
    }

    /// What the tool does.
    pub fn description(&self) -> (r: &'static str)
        ensures
            r@ == "Search file contents using a regex pattern. Returns matching lines with file:line context."@,
    {
        "Search file contents using a regex pattern. Returns matching lines with file:line context."
    }

    /// Compiles the search pattern, or gives the error of an invalid one.
    pub fn compile(pattern: &str) -> (r: Result<LinePattern, HummingbirdError>)
        ensures
            r is Ok <==> crate::patterns::regex_valid(pattern@),
            r matches Ok(p) ==> p.source() == pattern@,
            r matches Err(e) ==> e matches HummingbirdError::Tool(m) && m@ == "Invalid regex: "@ + regex_error_text(pattern@),
    {
        match compile_regex(pattern) {
            Ok(p) => Ok(p),
            Err(m) => Err(HummingbirdError::Tool(concat2("Invalid regex: ", m.as_str()))),
        }
    }

    /// Whether a file name passes the optional glob filter.
    pub fn name_filter(filter: Option<&str>, name: &str) -> (r: bool)
        ensures
            r == name_passes(
                match filter {
                    Some(g) => Some(g@),
                    None => None,
                },
                name@,
            ),
    {
        proof {
            reveal_strlit("*");
        }
        match filter {
            None => true,
            Some(g) => match compile_glob(g) {
                Some(p) => glob_is_match(&p, name),
                None => match compile_glob("*") {
                    Some(p) => glob_is_match(&p, name),
                    None => false,
                },
            },
        }
    }

    fn push_line_hits(pattern: &LinePattern, display: &str, content: &str, out: &mut Vec<String>)
        ensures
            strs(final(out)@) == strs(old(out)@) + line_hits(pattern.source(), display@, lines_spec(content@)),
    {
        let ls = lines(content);
        let n = ls.len();
        let mut i: usize = 0;
        while i < n
            invariant
                n == ls@.len(),
                i <= n,
                strs(out@) == strs(old(out)@) + line_hits(pattern.source(), display@, strs(ls@).take(i as int)),
            decreases n - i,
        {
            let line = ls[i].as_str();
            assert(strs(ls@).take(i + 1).drop_last() =~= strs(ls@).take(i as int));
            assert(strs(ls@).take(i + 1).last() == ls@[i as int]@);
            if regex_is_match(pattern, line) {
                let mut h = concat2(display, ":");
                push_decimal(&mut h, (i + 1) as u64);
                push_str(&mut h, ": ");
                push_str(&mut h, line);
                let ghost before = out@;
                out.push(h);
                proof {
                    crate::text::lemma_strs_push(before, h);
                    assert(h@ =~= hit_line(display@, (i + 1) as nat, ls@[i as int]@));
                    assert(strs(out@) =~= strs(old(out)@) + line_hits(pattern.source(), display@, strs(ls@).take(i + 1)));
                }
            }
            i = i + 1;
        }
        assert(strs(ls@).take(n as int) =~= strs(ls@));
    }

    /// Searches the files that pass the name filter, line by line, and reports every line
    /// that the pattern matches.
    pub fn search(pattern: &LinePattern, filter: Option<&str>, files: &[SearchedFile]) -> (r: ToolResult)
        ensures
            !r.is_error,
            r.output@ == search_report(search_hits(pattern.source(), match filter {
                Some(g) => Some(g@),
                None => None,
            }, files@)),
    {
        let ghost gf = match filter {
            Some(g) => Some(g@),
            None => None,
        };
        let mut hits: Vec<String> = Vec::new();
        let n = files.len();
        let mut i: usize = 0;
        while i < n
            invariant
                n == files@.len(),
                i <= n,
                gf == match filter {
                    Some(g) => Some(g@),
                    None => None::<Seq<char>>,
                },
                strs(hits@) == search_hits(pattern.source(), gf, files@.take(i as int)),
            decreases n - i,
        {
            let f = &files[i];
            assert(files@.take(i + 1).drop_last() =~= files@.take(i as int));
            assert(files@.take(i + 1).last() == files@[i as int]);
            match &f.content {
                Some(c) => {
                    if Self::name_filter(filter, f.file_name.as_str()) {
                        Self::push_line_hits(pattern, f.display.as_str(), c.as_str(), &mut hits);
                    }
                },
                None => {},
            }
            i = i + 1;
        }
        assert(files@.take(n as int) =~= files@);
        proof {
            reveal_strlit("No matches found.");
        }
        if hits.len() == 0 {
            ToolResult::ok("No matches found.")
        } else {
            let out = join(&hits, "\n");
            ToolResult { output: out, is_error: false }
        }
    }
}

// ---------------------------------------------------------------------------------------------
// shell_exec
// ---------------------------------------------------------------------------------------------

/// How long a command may run unless told otherwise, in seconds.
pub const DEFAULT_TIMEOUT_SECS: u64 = 60;

/// The command prefixes that are always refused.
pub open spec fn blocked_prefixes() -> Seq<Seq<char>> {
    seq![
        "rm -rf /"@,
        "rm -rf ~"@,
        "sudo rm"@,
        "mkfs"@,
        "dd if="@,
        ":(){:|:&};:"@,
        "chmod -R 777 /"@,
        "> /dev/sda"@,
        "format c:"@,
    ]
}

/// The command prefixes that are always refused.
pub fn blocked_prefix_list() -> (r: Vec<String>)
    ensures
        strs(r@) == blocked_prefixes(),
{
    let r = crate::context::strings_of(
        &["rm -rf /", "rm -rf ~", "sudo rm", "mkfs", "dd if=", ":(){:|:&};:", "chmod -R 777 /", "> /dev/sda", "format c:"],
    );
    assert(strs(r@) =~= blocked_prefixes());
    r
}

/// Runs shell commands in the workspace, refusing dangerous ones.
#[derive(Debug)]
pub struct ShellExec {
    pub workspace_root: String,
    pub timeout_secs: u64,
    pub blocked_commands: Vec<String>,
}

/// What to do with a shell request.
#[derive(Debug)]
pub enum ShellPlan {
    /// Do not run it; answer with this result.
    Refuse(ToolResult),
    /// Run the command, for at most this many seconds.
    Run { command: String, timeout_secs: u64 },
}

/// How a command ended.
#[derive(Debug)]
pub enum ShellOutcome {
    /// It ran to the end: its output, its exit code (none when a signal ended it) and
    /// whether it succeeded.
    Exited { stdout: String, stderr: String, code: Option<i32>, success: bool },
    /// It could not be started: the message of the error.
    SpawnFailed(String),
    /// It ran out of time.
    TimedOut,
}

/// Some string of `list` is a prefix of `s`.
pub open spec fn some_prefix(list: Seq<Seq<char>>, s: Seq<char>) -> bool {
    exists|i: int| 0 <= i < list.len() && has_prefix(s, list[i])
}

/// The combined output of a command: its standard output, then its error output after a
/// `STDERR:` line when there is any.
pub open spec fn combined_output(stdout: Seq<char>, stderr: Seq<char>) -> Seq<char> {
    if stderr.len() == 0 {
        stdout
    } else {
        stdout + "\nSTDERR:\n"@ + stderr
    }
}

/// Each string of `list` in lowercase.
pub open spec fn lowered(list: Seq<Seq<char>>) -> Seq<Seq<char>> {
    list.map_values(|p: Seq<char>| lowercase(p))
}

/// Whether `s` starts with one of the strings of `list`, taken in lowercase.
fn some_lowered_prefix(list: &Vec<String>, s: &str) -> (r: bool)
    ensures
        r == some_prefix(lowered(strs(list@)), s@),
{
    let n = list.len();
    let mut i: usize = 0;
    while i < n
        invariant
            n == list@.len(),
            i <= n,
            forall|k: int| 0 <= k < i ==> !has_prefix(s@, lowered(strs(list@))[k]),
        decreases n - i,
    {
        assert(lowered(strs(list@))[i as int] == lowercase(list@[i as int]@));
        let p = to_lowercase(list[i].as_str());
        if starts_with(s, p.as_str()) {
            return true;
        }
        i = i + 1;
    }
    false
}

impl ShellExec {

    /// The parameters the tool takes: the `command` and an optional `timeout_secs`.
    pub fn parameters_schema(&self) -> (r: JsonValue)
        ensures
            schema_is(
                r,
                seq![
                    ("command"@, "string"@, "Shell command to run"@),
                    ("timeout_secs"@, "integer"@, "Timeout in seconds (default 60)"@),
                ],
                seq!["command"@],
            ),
    {
        let mut props: Vec<(String, JsonValue)> = Vec::new();
        props.push((owned("command"), property("string", "Shell command to run")));
        props.push((owned("timeout_secs"), property("integer", "Timeout in seconds (default 60)")));
        let req = string_list(&["command"]);
        assert(["command"]@.map_values(|s: &str| s@) =~= seq!["command"@]);
        object_schema(props, req)
    }
    /// A shell for the workspace, with a 60-second timeout, refusing the built-in prefixes.
    pub fn new(workspace_root: &str) -> (r: ShellExec)
        ensures
            r.workspace_root@ == workspace_root@,
            r.timeout_secs == DEFAULT_TIMEOUT_SECS,
            strs(r.blocked_commands@) == blocked_prefixes(),
    {
        ShellExec { workspace_root: owned(workspace_root), timeout_secs: DEFAULT_TIMEOUT_SECS, blocked_commands: blocked_prefix_list() }
    }

    /// The tool's name.
    pub fn name(&self) -> (r: &'static str)
        ensures
            r@ == "shell_exec"@,
    {
        "shell_exec"
    }

    /// What the tool does.
    pub fn description(&self) -> (r: &'static str)
        ensures
            r@ == "Execute a shell command in the workspace directory. Dangerous commands are blocked."@,
    {
        "Execute a shell command in the workspace directory. Dangerous commands are blocked."
    }

    /// A command is refused when, trimmed, it starts with one of the built-in prefixes or with
    /// one of this shell's refused commands, letters compared without regard to case (both
    /// sides taken in lowercase).
    pub open spec fn blocked_spec(&self, cmd: Seq<char>) -> bool {
        let lower = lowercase(trim_spec(cmd));
        some_prefix(lowered(blocked_prefixes()), lower) || some_prefix(lowered(strs(self.blocked_commands@)), lower)
    }

    /// Whether the command is refused.
    pub fn is_blocked(&self, cmd: &str) -> (r: bool)
        ensures
            r == self.blocked_spec(cmd@),
    {
        let t = trim(cmd);
        let lower = to_lowercase(t.as_str());
        let builtin = blocked_prefix_list();
        some_lowered_prefix(&builtin, lower.as_str()) || some_lowered_prefix(&self.blocked_commands, lower.as_str())
    }

    /// Decides what to do with a request: without a `command` it is an error; a refused
    /// command is answered with an error result; otherwise the command runs, for
    /// `timeout_secs` seconds when the request gives them, or for this shell's timeout.
    pub fn plan(&self, params: &JsonValue) -> (r: Result<ShellPlan, HummingbirdError>)
        ensures
            r is Err <==> params.spec_str_field("command"@) is None,
            r matches Err(e) ==> e matches HummingbirdError::Tool(m) && m@ == missing_param_message("command"@),
            r matches Ok(ShellPlan::Refuse(t)) ==> params.spec_str_field("command"@) matches Some(c) && self.blocked_spec(c)
                && t.is_error && t.output@ == "Command blocked by security policy: '"@ + c + "'"@,
            r matches Ok(ShellPlan::Run { command, timeout_secs }) ==> params.spec_str_field("command"@) == Some(command@)
                && !self.blocked_spec(command@) && timeout_secs == match params.spec_index("timeout_secs"@).spec_as_u64() {
                    Some(t) => t,
                    None => self.timeout_secs,
                },
    {
        let command = required_str_param(params, "command");
        let command = match command {
            Ok(c) => c,
            Err(e) => return Err(e),
        };
        if self.is_blocked(command.as_str()) {
            let mut s = concat2("Command blocked by security policy: '", command.as_str());
            push_char(&mut s, '\'');
            proof {
                reveal_strlit("'");
                assert(s@ =~= "Command blocked by security policy: '"@ + command@ + "'"@);
            }
            return Ok(ShellPlan::Refuse(ToolResult { output: s, is_error: true }));
        }
        let timeout_secs = match params.u64_field("timeout_secs") {
            Some(t) => t,
            None => self.timeout_secs,
        };
        Ok(ShellPlan::Run { command, timeout_secs })
    }

    /// The result of a command that ran for at most `timeout_secs` seconds.
    pub fn report(outcome: ShellOutcome, timeout_secs: u64) -> (r: ToolResult)
        ensures
            match outcome {
                ShellOutcome::Exited { stdout, stderr, code, success } => {
                    let c: int = match code {
                        Some(c) => c as int,
                        None => -1,
                    };
                    &&& r.is_error == !success
                    &&& r.output@ == "exit="@ + decimal_int(c) + "\n"@ + combined_output(stdout@, stderr@)
                },
                ShellOutcome::SpawnFailed(m) => r.is_error && r.output@ == "Failed to spawn process: "@ + m@,
                ShellOutcome::TimedOut => r.is_error && r.output@ == "Command timed out after "@ + decimal(
                    timeout_secs as nat,
                ) + "s"@,
            },
    {
        match outcome {
            ShellOutcome::Exited { stdout, stderr, code, success } => {
                let c: i64 = match code {
                    Some(c) => c as i64,
                    None => -1,
                };
                let combined = if byte_len_of(stderr.as_str()) == 0 {
                    stdout
                } else {
                    let mut s = stdout;
                    push_str(&mut s, "\nSTDERR:\n");
                    push_str(&mut s, stderr.as_str());
                    s
                };
                proof {
                    if stderr@.len() == 0 {
                        assert(stderr@ =~= seq![]);
                    } else {
                        vstd::utf8::encode_utf8_first_scalar(stderr@);
                    }
                }
                let mut out = owned("exit=");
                let digits = crate::text::decimal_string_i64(c);
                push_str(&mut out, digits.as_str());
                push_char(&mut out, '\n');
                push_str(&mut out, combined.as_str());
                proof {
                    reveal_strlit("exit=");
                    reveal_strlit("\n");
                    assert(out@ =~= "exit="@ + decimal_int(c as int) + "\n"@ + combined_output(stdout@, stderr@));
                }
                ToolResult { output: out, is_error: !success }
            },
            ShellOutcome::SpawnFailed(m) => {
                let s = concat2("Failed to spawn process: ", m.as_str());
                ToolResult { output: s, is_error: true }
            },
            ShellOutcome::TimedOut => {
                let mut s = owned("Command timed out after ");
                push_decimal(&mut s, timeout_secs);
                push_char(&mut s, 's');
                proof {
                    reveal_strlit("s");
                    assert(s@ =~= "Command timed out after "@ + decimal(timeout_secs as nat) + "s"@);
                }
                ToolResult { output: s, is_error: true }
            },
        }
    }
}

/// Which files a search reads is decided by their file names alone: a readable file whose
/// name the glob matches (or any readable file, without a glob) adds the matching lines of
/// its text, each reported under its displayed path, whatever that path is; a file whose
/// name the glob does not match, or that could not be read, adds nothing.
pub proof fn law_search_filters_by_file_name(pattern: Seq<char>, filter: Option<Seq<char>>, files: Seq<SearchedFile>, f: SearchedFile)
    ensures
        f.content is Some && (filter is None || (filter matches Some(g) && glob_valid(g) && glob_matches(g, f.file_name@)))
            ==> search_hits(pattern, filter, files.push(f)) == search_hits(pattern, filter, files) + line_hits(
            pattern,
            f.display@,
            lines_spec(f.content->0@),
        ),
        (f.content is None || (filter matches Some(g) && glob_valid(g) && !glob_matches(g, f.file_name@)))
            ==> search_hits(pattern, filter, files.push(f)) == search_hits(pattern, filter, files),
{
    assert(files.push(f).drop_last() =~= files);
}

/// Each line of a file that the pattern matches is reported once, in order, as the displayed
/// path, a colon, the line's number counted from one, a colon and a space, and the line;
/// lines that it does not match are not reported.
pub proof fn law_hits_name_their_lines(pattern: Seq<char>, display: Seq<char>, ls: Seq<Seq<char>>, l: Seq<char>)
    ensures
        line_hits(pattern, display, seq![]) == Seq::<Seq<char>>::empty(),
        line_hits(pattern, display, ls.push(l)) == if regex_matches(pattern, l) {
            line_hits(pattern, display, ls).push(display + ":"@ + decimal(ls.len() + 1) + ": "@ + l)
        } else {
            line_hits(pattern, display, ls)
        },
{
    assert(ls.push(l).drop_last() =~= ls);
}

} // verus!
