//! Line-range edits of files: ordering and overlap checks, the edited text, unified diffs
//! and their colouring.
use vstd::prelude::*;
use crate::error::HummingbirdError;
use crate::text::{
    chars_of, concat2, decimal, has_prefix, join, lines, lines_spec, owned, push_char, push_decimal,
    push_str, seq_join, starts_with, strs,
};

verus! {

// ---------------------------------------------------------------------------------------------
// Colouring
// ---------------------------------------------------------------------------------------------

/// One diff line, coloured: added lines green, removed lines red, hunk headers cyan; file
/// headers (`+++`, `---`) and context lines unchanged.
pub open spec fn color_line(l: Seq<char>) -> Seq<char> {
    if has_prefix(l, "+"@) && !has_prefix(l, "+++"@) {
        "\x1b[32m"@ + l + "\x1b[0m"@
    } else if has_prefix(l, "-"@) && !has_prefix(l, "---"@) {
        "\x1b[31m"@ + l + "\x1b[0m"@
    } else if has_prefix(l, "@@"@) {
        "\x1b[36m"@ + l + "\x1b[0m"@
    } else {
        l
    }
}

/// A diff with each line coloured, the lines joined with `'\n'`.
pub open spec fn colorize_spec(diff: Seq<char>) -> Seq<char> {
    seq_join(lines_spec(diff).map_values(|l: Seq<char>| color_line(l)), "\n"@)
}

fn color_one(l: &str) -> (r: String)
    ensures
        r@ == color_line(l@),
{
    let plus = starts_with(l, "+") && !starts_with(l, "+++");
    let minus = starts_with(l, "-") && !starts_with(l, "---");
    let hunk = starts_with(l, "@@");
    let code = if plus {
        "\x1b[32m"
    } else if minus {
        "\x1b[31m"
    } else if hunk {
        "\x1b[36m"
    } else {
        return owned(l);
    };
    let mut r = owned(code);
    push_str(&mut r, l);
    push_str(&mut r, "\x1b[0m");
    r
}

/// Colours a unified diff for the terminal.
pub fn colorize_diff(diff: &str) -> (r: String)
    ensures
        r@ == colorize_spec(diff@),
{
    let ls = lines(diff);
    let mut out: Vec<String> = Vec::new();
    let n = ls.len();
    let mut i: usize = 0;
    while i < n
        invariant
            n == ls@.len(),
            i <= n,
            strs(out@) == strs(ls@).take(i as int).map_values(|l: Seq<char>| color_line(l)),
        decreases n - i,
    {
        let c = color_one(ls[i].as_str());
        let ghost before = out@;
        out.push(c);
        proof {
            crate::text::lemma_strs_push(before, c);
            assert(strs(ls@)[i as int] == ls@[i as int]@);
        }
        assert(strs(out@) =~= strs(ls@).take(i + 1).map_values(|l: Seq<char>| color_line(l)));
        i = i + 1;
    }
    assert(strs(ls@).take(n as int) =~= strs(ls@));
    join(&out, "\n")
}

// ---------------------------------------------------------------------------------------------
// Edits
// ---------------------------------------------------------------------------------------------

/// Replace lines `line_start..=line_end` (counted from one) of the file `path` with
/// `new_content`.
#[derive(Debug, Clone)]
pub struct EditSpec {
    pub path: String,
    pub line_start: usize,
    pub line_end: usize,
    pub new_content: String,
}

/// What an applied edit produced: its diff and where the former text was saved.
#[derive(Debug)]
pub struct EditResult {
    pub unified_diff: String,
    pub backup_path: String,
}

/// Two edits of the same file whose line ranges overlap.
pub open spec fn overlapping(a: EditSpec, b: EditSpec) -> bool {
    a.path@ == b.path@ && a.line_start < b.line_end && b.line_start < a.line_end
}

/// No two of the edits overlap.
pub open spec fn no_overlaps(s: Seq<EditSpec>) -> bool {
    forall|i: int, j: int| 0 <= i < j < s.len() ==> !overlapping(s[i], s[j])
}

/// `(i, j)` is the first overlapping pair of `s`, ordered by `i`, then `j`.
pub open spec fn first_overlap(s: Seq<EditSpec>, i: int, j: int) -> bool {
    &&& 0 <= i < j < s.len()
    &&& overlapping(s[i], s[j])
    &&& forall|a: int, b: int| 0 <= a < i && a < b < s.len() ==> !overlapping(s[a], s[b])
    &&& forall|b: int| i < b < j ==> !overlapping(s[i], s[b])
}

/// The message that reports two overlapping edits.
pub open spec fn overlap_message(a: EditSpec, b: EditSpec) -> Seq<char> {
    "Overlapping edits at lines "@ + decimal(a.line_start as nat) + "-"@ + decimal(a.line_end as nat)
        + " and "@ + decimal(b.line_start as nat) + "-"@ + decimal(b.line_end as nat)
}

fn overlap_error(a: &EditSpec, b: &EditSpec) -> (r: HummingbirdError)
    ensures
        r matches HummingbirdError::Tool(m) && m@ == overlap_message(*a, *b),
{
    let mut m = owned("Overlapping edits at lines ");
    push_decimal(&mut m, a.line_start as u64);
    push_char(&mut m, '-');
    push_decimal(&mut m, a.line_end as u64);
    push_str(&mut m, " and ");
    push_decimal(&mut m, b.line_start as u64);
    push_char(&mut m, '-');
    push_decimal(&mut m, b.line_end as u64);
    proof {
        reveal_strlit("Overlapping edits at lines ");
        reveal_strlit(" and ");
        reveal_strlit("-");
        assert(m@ =~= overlap_message(*a, *b));
    }
    HummingbirdError::Tool(m)
}

/// The integer key by which something is ordered, largest first.
pub trait DescendingKey {
    spec fn spec_key(&self) -> int;

    fn sort_key(&self) -> (r: u64)
        ensures
            r as int == self.spec_key(),
    ;
}

impl DescendingKey for EditSpec {
    open spec fn spec_key(&self) -> int {
        self.line_start as int
    }

    fn sort_key(&self) -> (r: u64) {
        self.line_start as u64
    }
}

/// `x` inserted into `s` after every element whose key is at least `x`'s.
pub open spec fn insert_desc<T: DescendingKey>(s: Seq<T>, x: T) -> Seq<T>
    decreases s.len(),
{
    if s.len() == 0 {
        seq![x]
    } else if s.last().spec_key() >= x.spec_key() {
        s.push(x)
    } else {
        insert_desc(s.drop_last(), x).push(s.last())
    }
}

/// `s` sorted by key, largest first; elements with equal keys keep their order (a stable
/// sort, as `sort_by` with the reversed key).
pub open spec fn sort_desc<T: DescendingKey>(s: Seq<T>) -> Seq<T>
    decreases s.len(),
{
    if s.len() == 0 {
        seq![]
    } else {
        insert_desc(sort_desc(s.drop_last()), s.last())
    }
}

/// Keys never increase along `s`.
pub open spec fn sorted_desc<T: DescendingKey>(s: Seq<T>) -> bool {
    forall|i: int, j: int| 0 <= i < j < s.len() ==> s[i].spec_key() >= s[j].spec_key()
}

/// Inserting at the place where every element before has a key at least `x`'s and every
/// element after a smaller key.
proof fn lemma_insert_desc_at<T: DescendingKey>(s: Seq<T>, x: T, j: int)
    requires
        0 <= j <= s.len(),
        forall|k: int| j <= k < s.len() ==> s[k].spec_key() < x.spec_key(),
        j > 0 ==> s[j - 1].spec_key() >= x.spec_key(),
    ensures
        insert_desc(s, x) == s.subrange(0, j) + seq![x] + s.subrange(j, s.len() as int),
    decreases s.len(),
{
    if s.len() == 0 {
        assert(seq![x] =~= s.subrange(0, j) + seq![x] + s.subrange(j, s.len() as int));
    } else if s.last().spec_key() >= x.spec_key() {
        assert(j == s.len());
        assert(s.push(x) =~= s.subrange(0, j) + seq![x] + s.subrange(j, s.len() as int));
    } else {
        lemma_insert_desc_at(s.drop_last(), x, j);
        assert(insert_desc(s.drop_last(), x).push(s.last()) =~= s.subrange(0, j) + seq![x] + s.subrange(
            j,
            s.len() as int,
        ));
    }
}

/// Sorting by key, largest first, keeping the order of equal keys.
pub fn stable_sort_desc<T: DescendingKey>(v: Vec<T>) -> (r: Vec<T>)
    ensures
        r@ == sort_desc(v@),
{
    let mut input = v;
    let mut rest: Vec<T> = Vec::new();
    // Take the elements out from the back, so that they can be inserted front to back.
    let ghost orig = input@;
    while input.len() > 0
        invariant
            orig == input@ + rest@.reverse(),
        decreases input@.len(),
    {
        let x = input.pop().unwrap();
        proof {
            assert(orig =~= input@ + rest@.push(x).reverse());
        }
        rest.push(x);
    }
    assert(orig =~= rest@.reverse());
    let mut out: Vec<T> = Vec::new();
    let ghost mut done: Seq<T> = seq![];
    while rest.len() > 0
        invariant
            orig == done + rest@.reverse(),
            out@ == sort_desc(done),
            sorted_desc(out@),
        decreases rest@.len(),
    {
        let x = rest.pop().unwrap();
        let kx = x.sort_key();
        let mut j = out.len();
        while j > 0 && out[j - 1].sort_key() < kx
            invariant
                j <= out@.len(),
                kx == x.spec_key(),
                forall|k: int| j <= k < out@.len() ==> out@[k].spec_key() < x.spec_key(),
            decreases j,
        {
            j = j - 1;
        }
        proof {
            lemma_insert_desc_at(out@, x, j as int);
            assert((done.push(x)).drop_last() =~= done);
            assert(orig =~= done.push(x) + rest@.reverse());
        }
        let ghost before = out@;
        out.insert(j, x);
        proof {
            assert(out@ =~= before.subrange(0, j as int) + seq![x] + before.subrange(j as int, before.len() as int));
            assert forall|a: int, b: int| 0 <= a < b < out@.len() implies out@[a].spec_key() >= out@[b].spec_key() by {
                if a < j && b == j {
                    assert(before[j - 1].spec_key() >= x.spec_key() || j == 0);
                    assert(before[a].spec_key() >= before[j - 1].spec_key());
                } else if a == j && b > j {
                    assert(before[b - 1].spec_key() < x.spec_key());
                }
            }
            done = done.push(x);
        }
    }
    assert(done =~= orig);
    out
}

/// The number of the first line of an edit, counted from zero.
pub open spec fn edit_start(spec: EditSpec) -> int {
    if spec.line_start >= 1 { spec.line_start - 1 } else { 0 }
}

/// The end of the replaced range, counted from zero and exclusive, within a file of
/// `n` lines.
pub open spec fn edit_end(spec: EditSpec, n: int) -> int {
    if spec.line_end < n { spec.line_end as int } else { n }
}

/// An edit whose range cannot be cut out of a file of `n` lines: it starts within the file
/// but ends before it starts.
pub open spec fn reversed_range(spec: EditSpec, n: int) -> bool {
    edit_start(spec) <= n && edit_start(spec) > edit_end(spec, n)
}

/// The message of an edit that starts past the end of the file.
pub open spec fn past_end_message(spec: EditSpec, n: nat) -> Seq<char> {
    "line_start "@ + decimal(spec.line_start as nat) + " exceeds file length "@ + decimal(n)
}

/// Each line with `c` before it and `'\n'` after it, concatenated.
pub open spec fn marked_lines(ls: Seq<Seq<char>>, c: char) -> Seq<char>
    decreases ls.len(),
{
    if ls.len() == 0 {
        seq![]
    } else {
        marked_lines(ls.drop_last(), c) + seq![c] + ls.last() + seq!['\n']
    }
}

/// A unified diff of one hunk that removes `removed` and adds `added` at line `start + 1`.
pub open spec fn unified_diff_spec(path: Seq<char>, removed: Seq<Seq<char>>, added: Seq<Seq<char>>, start: nat) -> Seq<char> {
    "--- a/"@ + path + "\n+++ b/"@ + path + "\n@@ -"@ + decimal(start + 1) + ","@ + decimal(removed.len())
        + " +"@ + decimal(start + 1) + ","@ + decimal(added.len()) + " @@\n"@ + marked_lines(removed, '-')
        + marked_lines(added, '+')
}

fn push_marked(out: &mut String, ls: &[String], c: char)
    ensures
        final(out)@ == old(out)@ + marked_lines(strs(ls@), c),
{
    let n = ls.len();
    let mut i: usize = 0;
    while i < n
        invariant
            n == ls@.len(),
            i <= n,
            out@ == old(out)@ + marked_lines(strs(ls@).take(i as int), c),
        decreases n - i,
    {
        assert(strs(ls@).take(i + 1).drop_last() =~= strs(ls@).take(i as int));
        push_char(out, c);
        push_str(out, ls[i].as_str());
        push_char(out, '\n');
        assert(out@ =~= old(out)@ + marked_lines(strs(ls@).take(i + 1), c));
        i = i + 1;
    }
    assert(strs(ls@).take(n as int) =~= strs(ls@));
}

/// Builds the unified diff of one hunk.
pub fn build_unified_diff(path: &str, removed: &[String], added: &[String], start: usize) -> (r: String)
    requires
        start < usize::MAX,
    ensures
        r@ == unified_diff_spec(path@, strs(removed@), strs(added@), start as nat),
{
    let mut out = concat2("--- a/", path);
    push_str(&mut out, "\n+++ b/");
    push_str(&mut out, path);
    push_str(&mut out, "\n@@ -");
    push_decimal(&mut out, (start + 1) as u64);
    push_char(&mut out, ',');
    push_decimal(&mut out, removed.len() as u64);
    push_str(&mut out, " +");
    push_decimal(&mut out, (start + 1) as u64);
    push_char(&mut out, ',');
    push_decimal(&mut out, added.len() as u64);
    push_str(&mut out, " @@\n");
    push_marked(&mut out, removed, '-');
    push_marked(&mut out, added, '+');
    proof {
        reveal_strlit("--- a/");
        reveal_strlit("\n+++ b/");
        reveal_strlit("\n@@ -");
        reveal_strlit(" +");
        reveal_strlit(" @@\n");
        reveal_strlit(",");
        assert(out@ =~= unified_diff_spec(path@, strs(removed@), strs(added@), start as nat));
    }
    out
}

/// The text of a file after an edit: its lines with the range replaced by the new content's
/// lines, joined with `'\n'`, with a final `'\n'` when the file existed and ended in one.
pub open spec fn edited_text_spec(original: Seq<char>, existed: bool, spec: EditSpec) -> Seq<char> {
    let ls = lines_spec(original);
    let s = edit_start(spec);
    let e = edit_end(spec, ls.len() as int);
    let body = seq_join(ls.subrange(0, s) + lines_spec(spec.new_content@) + ls.subrange(e, ls.len() as int), "\n"@);
    if existed && original.len() > 0 && original.last() == '\n' {
        body + "\n"@
    } else {
        body
    }
}

/// The diff that an edit produces on a file.
pub open spec fn edit_diff_spec(original: Seq<char>, spec: EditSpec) -> Seq<char> {
    let ls = lines_spec(original);
    let s = edit_start(spec);
    let e = edit_end(spec, ls.len() as int);
    unified_diff_spec(spec.path@, ls.subrange(s, e), lines_spec(spec.new_content@), s as nat)
}

/// Edits files under a workspace directory.
#[derive(Debug)]
pub struct ForgeEngine {
    pub workspace_root: String,
}

impl ForgeEngine {
    /// Makes sure that no two edits of the same file overlap; otherwise reports the first
    /// overlapping pair.
    pub fn check_no_overlaps(&self, specs: &[EditSpec]) -> (r: Result<(), HummingbirdError>)
        ensures
            r is Ok <==> no_overlaps(specs@),
            r is Err ==> exists|i: int, j: int| first_overlap(specs@, i, j) && (r matches Err(
                HummingbirdError::Tool(m),
            ) && m@ == overlap_message(specs@[i], specs@[j])),
    {
        let n = specs.len();
        let mut i: usize = 0;
        while i < n
            invariant
                n == specs@.len(),
                i <= n,
                forall|a: int, b: int| 0 <= a < i && a < b < n ==> !overlapping(specs@[a], specs@[b]),
            decreases n - i,
        {
            let mut j: usize = i + 1;
            while j < n
                invariant
                    n == specs@.len(),
                    i < n,
                    i + 1 <= j <= n,
                    forall|a: int, b: int| 0 <= a < i && a < b < n ==> !overlapping(specs@[a], specs@[b]),
                    forall|b: int| i < b < j ==> !overlapping(specs@[i as int], specs@[b]),
                decreases n - j,
            {
                let a = &specs[i];
                let b = &specs[j];
                if a.path == b.path && a.line_start < b.line_end && b.line_start < a.line_end {
                    let e = overlap_error(a, b);
                    assert(first_overlap(specs@, i as int, j as int));
                    return Err(e);
                }
                j = j + 1;
            }
            i = i + 1;
        }
        Ok(())
    }
}

impl ForgeEngine {
    /// An engine for the given workspace directory.
    pub fn new(workspace_root: &str) -> (r: ForgeEngine)
        ensures
            r.workspace_root@ == workspace_root@,
    {
        ForgeEngine { workspace_root: owned(workspace_root) }
    }

    /// The diff and the new text of a file whose current text is `original` (empty when it
    /// did not exist), after `spec`. Fails when the edit starts past the file's end.
    pub fn edit_text(&self, spec: &EditSpec, original: &str, existed: bool) -> (r: Result<(String, String), HummingbirdError>)
        requires
            !reversed_range(*spec, lines_spec(original@).len() as int),
        ensures
            r is Err <==> edit_start(*spec) > lines_spec(original@).len(),
            r matches Err(e) ==> e matches HummingbirdError::Tool(m) && m@ == past_end_message(*spec, lines_spec(original@).len()),
            r matches Ok((d, t)) ==> d@ == edit_diff_spec(original@, *spec) && t@ == edited_text_spec(original@, existed, *spec),
    {
        let ls = lines(original);
        proof {
            crate::text::lemma_lines_len(original@);
        }
        let n = ls.len();
        let start: usize = if spec.line_start >= 1 { spec.line_start - 1 } else { 0 };
        let end: usize = if spec.line_end < n { spec.line_end } else { n };
        if start > n {
            let mut m = owned("line_start ");
            push_decimal(&mut m, spec.line_start as u64);
            push_str(&mut m, " exceeds file length ");
            push_decimal(&mut m, n as u64);
            proof {
                reveal_strlit("line_start ");
                reveal_strlit(" exceeds file length ");
                assert(m@ =~= past_end_message(*spec, lines_spec(original@).len()));
            }
            return Err(HummingbirdError::Tool(m));
        }
        let added = lines(spec.new_content.as_str());
        let removed = slice_strings(&ls, start, end);
        let diff = build_unified_diff(spec.path.as_str(), removed.as_slice(), added.as_slice(), start);
        let mut new_lines = slice_strings(&ls, 0, start);
        let mut k: usize = 0;
        while k < added.len()
            invariant
                k <= added@.len(),
                strs(new_lines@) == strs(ls@).subrange(0, start as int) + strs(added@).take(k as int),
            decreases added@.len() - k,
        {
            let x = added[k].clone();
            let ghost before = new_lines@;
            new_lines.push(x);
            proof {
                crate::text::lemma_strs_push(before, x);
                assert(strs(added@)[k as int] == added@[k as int]@);
            }
            assert(strs(new_lines@) =~= strs(ls@).subrange(0, start as int) + strs(added@).take(k + 1));
            k = k + 1;
        }
        assert(strs(added@).take(added@.len() as int) =~= strs(added@));
        let tail = slice_strings(&ls, end, n);
        let mut t: usize = 0;
        let ghost head = strs(new_lines@);
        while t < tail.len()
            invariant
                t <= tail@.len(),
                strs(new_lines@) == head + strs(tail@).take(t as int),
            decreases tail@.len() - t,
        {
            let x = tail[t].clone();
            let ghost before = new_lines@;
            new_lines.push(x);
            proof {
                crate::text::lemma_strs_push(before, x);
                assert(strs(tail@)[t as int] == tail@[t as int]@);
            }
            assert(strs(new_lines@) =~= head + strs(tail@).take(t + 1));
            t = t + 1;
        }
        assert(strs(tail@).take(tail@.len() as int) =~= strs(tail@));
        let body = join(&new_lines, "\n");
        let oc = chars_of(original);
        let ends_nl = oc.len() > 0 && oc[oc.len() - 1] == '\n';
        let text = if existed && ends_nl {
            concat2(body.as_str(), "\n")
        } else {
            body
        };
        assert(strs(new_lines@) =~= lines_spec(original@).subrange(0, start as int) + lines_spec(spec.new_content@)
            + lines_spec(original@).subrange(end as int, n as int));
        Ok((diff, text))
    }

    /// The order in which edits are applied: from the bottom of the files up (by first line,
    /// largest first; edits that start on the same line in their given order), or the error
    /// of the first overlapping pair when two edits of one file overlap.
    pub fn plan_edits(&self, specs: Vec<EditSpec>) -> (r: Result<Vec<EditSpec>, HummingbirdError>)
        ensures
            r is Ok <==> no_overlaps(sort_desc(specs@)),
            r matches Ok(v) ==> v@ == sort_desc(specs@),
            r is Err ==> exists|i: int, j: int| first_overlap(sort_desc(specs@), i, j) && (r matches Err(
                HummingbirdError::Tool(m),
            ) && m@ == overlap_message(sort_desc(specs@)[i], sort_desc(specs@)[j])),
    {
        let ordered = stable_sort_desc(specs);
        match self.check_no_overlaps(ordered.as_slice()) {
            Err(e) => Err(e),
            Ok(()) => Ok(ordered),
        }
    }

    /// Applies edits, through `apply`, in the order that `plan_edits` gives, once the plan
    /// has no overlapping edits; stops at the first edit that fails. `apply` need accept an
    /// edit only when the plan has no overlaps: it is never called on edits that overlap, so
    /// nothing is written before an overlap is reported.
    pub fn apply_edits<F: Fn(&EditSpec) -> Result<EditResult, HummingbirdError>>(&self, specs: Vec<EditSpec>, apply: F) -> (r: Result<Vec<EditResult>, HummingbirdError>)
        requires
            no_overlaps(sort_desc(specs@)) ==> forall|s: EditSpec| call_requires(apply, (&s,)),
        ensures
            !no_overlaps(sort_desc(specs@)) ==> exists|i: int, j: int| first_overlap(sort_desc(specs@), i, j) && (r matches Err(
                HummingbirdError::Tool(m),
            ) && m@ == overlap_message(sort_desc(specs@)[i], sort_desc(specs@)[j])),
            r matches Ok(results) ==> no_overlaps(sort_desc(specs@)) && results@.len() == specs@.len()
                && forall|i: int| 0 <= i < results@.len() ==> call_ensures(apply, (&sort_desc(specs@)[i],), Ok(results@[i])),
            r matches Err(e) ==> (no_overlaps(sort_desc(specs@)) ==> exists|k: int|
                0 <= k < specs@.len() && call_ensures(apply, (&sort_desc(specs@)[k],), Err::<EditResult, HummingbirdError>(e))),
    {
        proof {
            lemma_sort_desc_len(specs@);
        }
        let ordered = match self.plan_edits(specs) {
            Err(e) => return Err(e),
            Ok(v) => v,
        };
        let mut results: Vec<EditResult> = Vec::new();
        let n = ordered.len();
        let mut i: usize = 0;
        while i < n
            invariant
                n == ordered@.len(),
                ordered@ == sort_desc(specs@),
                ordered@.len() == specs@.len(),
                no_overlaps(ordered@),
                i <= n,
                results@.len() == i,
                forall|s: EditSpec| call_requires(apply, (&s,)),
                forall|k: int| 0 <= k < i ==> call_ensures(apply, (&ordered@[k],), Ok(results@[k])),
            decreases n - i,
        {
            let res = apply(&ordered[i]);
            match res {
                Ok(x) => {
                    results.push(x);
                },
                Err(e) => {
                    assert(call_ensures(apply, (&ordered@[i as int],), Err::<EditResult, HummingbirdError>(e)));
                    return Err(e);
                },
            }
            i = i + 1;
        }
        proof {
            lemma_sort_desc_len(specs@);
        }
        Ok(results)
    }
}

proof fn lemma_insert_desc_len<T: DescendingKey>(s: Seq<T>, x: T)
    ensures
        insert_desc(s, x).len() == s.len() + 1,
    decreases s.len(),
{
    if s.len() > 0 && s.last().spec_key() < x.spec_key() {
        lemma_insert_desc_len(s.drop_last(), x);
    }
}

proof fn lemma_sort_desc_len<T: DescendingKey>(s: Seq<T>)
    ensures
        sort_desc(s).len() == s.len(),
    decreases s.len(),
{
    if s.len() > 0 {
        lemma_sort_desc_len(s.drop_last());
        lemma_insert_desc_len(sort_desc(s.drop_last()), s.last());
    }
}

/// Inserting keeps every element's key at or above a bound that all of them, and the
/// inserted one, meet.
proof fn lemma_insert_desc_lower<T: DescendingKey>(s: Seq<T>, x: T, m: int)
    requires
        forall|i: int| 0 <= i < s.len() ==> s[i].spec_key() >= m,
        x.spec_key() >= m,
    ensures
        forall|i: int| 0 <= i < insert_desc(s, x).len() ==> #[trigger] insert_desc(s, x)[i].spec_key() >= m,
    decreases s.len(),
{
    if s.len() == 0 {
        assert forall|i: int| 0 <= i < insert_desc(s, x).len() implies #[trigger] insert_desc(s, x)[i].spec_key() >= m by {
            assert(insert_desc(s, x) == seq![x]);
        }
    } else if s.last().spec_key() >= x.spec_key() {
        assert forall|i: int| 0 <= i < insert_desc(s, x).len() implies #[trigger] insert_desc(s, x)[i].spec_key() >= m by {
            assert(insert_desc(s, x) == s.push(x));
            if i < s.len() {
                assert(s.push(x)[i] == s[i]);
            }
        }
    } else {
        let t = s.drop_last();
        lemma_insert_desc_lower(t, x, m);
        let u = insert_desc(t, x);
        assert forall|i: int| 0 <= i < insert_desc(s, x).len() implies #[trigger] insert_desc(s, x)[i].spec_key() >= m by {
            assert(insert_desc(s, x) == u.push(s.last()));
            if i < u.len() {
                assert(u.push(s.last())[i] == u[i]);
            } else {
                assert(s.last() == s[s.len() - 1]);
            }
        }
    }
}

/// Inserting into a sorted sequence keeps it sorted.
proof fn lemma_insert_desc_sorted<T: DescendingKey>(s: Seq<T>, x: T)
    requires
        sorted_desc(s),
    ensures
        sorted_desc(insert_desc(s, x)),
    decreases s.len(),
{
    if s.len() == 0 {
    } else if s.last().spec_key() >= x.spec_key() {
        let r = s.push(x);
        assert forall|i: int, j: int| 0 <= i < j < r.len() implies r[i].spec_key() >= r[j].spec_key() by {
            if j == s.len() {
                assert(s[i].spec_key() >= s.last().spec_key() || i == s.len() - 1);
            }
        }
    } else {
        let t = s.drop_last();
        lemma_insert_desc_sorted(t, x);
        lemma_insert_desc_lower(t, x, s.last().spec_key());
        lemma_insert_desc_len(t, x);
        let u = insert_desc(t, x);
        let r = u.push(s.last());
        assert forall|i: int, j: int| 0 <= i < j < r.len() implies r[i].spec_key() >= r[j].spec_key() by {
            if j == u.len() {
                assert(u[i].spec_key() >= s.last().spec_key());
            }
        }
    }
}

/// Inserting adds the element to the multiset of elements.
proof fn lemma_insert_desc_multiset<T: DescendingKey>(s: Seq<T>, x: T)
    ensures
        insert_desc(s, x).to_multiset() == s.to_multiset().insert(x),
    decreases s.len(),
{
    broadcast use vstd::seq_lib::group_to_multiset_ensures;
    if s.len() == 0 {
        assert(seq![x] =~= s.push(x));
    } else if s.last().spec_key() >= x.spec_key() {
    } else {
        let t = s.drop_last();
        lemma_insert_desc_multiset(t, x);
        assert(s =~= t.push(s.last()));
        assert(insert_desc(s, x).to_multiset() =~= s.to_multiset().insert(x));
    }
}

/// Inserting `x` adds it after every element with its key: among the elements with one key,
/// the order is that of `s`, then `x` when it has that key.
proof fn lemma_insert_desc_same_key<T: DescendingKey>(s: Seq<T>, x: T, k: int)
    ensures
        insert_desc(s, x).filter(|e: T| e.spec_key() == k) == if x.spec_key() == k {
            s.filter(|e: T| e.spec_key() == k).push(x)
        } else {
            s.filter(|e: T| e.spec_key() == k)
        },
    decreases s.len(),
{
    let p = |e: T| e.spec_key() == k;
    if s.len() == 0 {
        s.lemma_filter_push(x, p);
        assert(seq![x] =~= s.push(x));
    } else if s.last().spec_key() >= x.spec_key() {
        s.lemma_filter_push(x, p);
    } else {
        let t = s.drop_last();
        lemma_insert_desc_same_key(t, x, k);
        insert_desc(t, x).lemma_filter_push(s.last(), p);
        t.lemma_filter_push(s.last(), p);
        assert(s =~= t.push(s.last()));
        if x.spec_key() == k {
            assert(s.last().spec_key() != k);
        }
    }
}

/// Sorting by key, largest first, yields a sequence whose keys never increase.
pub proof fn law_sort_desc_sorted<T: DescendingKey>(s: Seq<T>)
    ensures
        sorted_desc(sort_desc(s)),
    decreases s.len(),
{
    if s.len() > 0 {
        law_sort_desc_sorted(s.drop_last());
        lemma_insert_desc_sorted(sort_desc(s.drop_last()), s.last());
    }
}

/// Sorting by key keeps exactly the elements it was given, each as often.
pub proof fn law_sort_desc_permutation<T: DescendingKey>(s: Seq<T>)
    ensures
        sort_desc(s).to_multiset() == s.to_multiset(),
    decreases s.len(),
{
    broadcast use vstd::seq_lib::group_to_multiset_ensures;
    if s.len() > 0 {
        let t = s.drop_last();
        law_sort_desc_permutation(t);
        lemma_insert_desc_multiset(sort_desc(t), s.last());
        assert(s =~= t.push(s.last()));
    }
}

/// Sorting by key is stable: the elements with any one key come out in the order in which
/// they were given.
pub proof fn law_sort_desc_stable<T: DescendingKey>(s: Seq<T>, k: int)
    ensures
        sort_desc(s).filter(|e: T| e.spec_key() == k) == s.filter(|e: T| e.spec_key() == k),
    decreases s.len(),
{
    if s.len() > 0 {
        let t = s.drop_last();
        law_sort_desc_stable(t, k);
        lemma_insert_desc_same_key(sort_desc(t), s.last(), k);
        t.lemma_filter_push(s.last(), |e: T| e.spec_key() == k);
        assert(s =~= t.push(s.last()));
    }
}

/// A copy of `v[from..to]`.
fn slice_strings(v: &Vec<String>, from: usize, to: usize) -> (r: Vec<String>)
    requires
        from <= to <= v@.len(),
    ensures
        strs(r@) == strs(v@).subrange(from as int, to as int),
{
    let mut r: Vec<String> = Vec::new();
    let mut i = from;
    while i < to
        invariant
            from <= i <= to <= v@.len(),
            strs(r@) == strs(v@).subrange(from as int, i as int),
        decreases to - i,
    {
        let x = v[i].clone();
        let ghost before = r@;
        r.push(x);
        proof {
            crate::text::lemma_strs_push(before, x);
            assert(strs(v@)[i as int] == v@[i as int]@);
        }
        assert(strs(r@) =~= strs(v@).subrange(from as int, i + 1));
        i = i + 1;
    }
    r
}

/// The path that std's `Path::join` makes of `rel` under `root`, as text, on Unix: an
/// absolute `rel` (one that starts with `/`) replaces `root`; otherwise `rel` follows
/// `root`, with a `/` between them unless `root` is empty or already ends in `/`.
pub open spec fn joined_path(root: Seq<char>, rel: Seq<char>) -> Seq<char> {
    if rel.len() > 0 && rel[0] == '/' {
        rel
    } else if root.len() == 0 || root.last() == '/' {
        root + rel
    } else {
        root + "/"@ + rel
    }
}

/// std's `Path::join` on Unix, its result taken as text (as `Path::display` shows the
/// path that a `&str` made): as `joined_path` states, following `PathBuf::push`.
#[verifier::external_body]
fn join_path(root: &str, rel: &str) -> (r: String)
    ensures
        r@ == joined_path(root@, rel@),
{
    std::path::Path::new(root).join(rel).display().to_string()
}

/// The file work of one edit: the text written to the edited file, and where its former
/// text is saved first.
#[derive(Debug)]
pub struct EditWrites {
    /// The file that is written.
    pub target: String,
    /// The text written there.
    pub text: String,
    /// Where the former text is saved.
    pub backup_path: String,
    /// Whether the former text is saved: only when it is not empty.
    pub save_backup: bool,
    /// The diff of the edit.
    pub unified_diff: String,
}

impl ForgeEngine {
    /// What an edit of a file whose current text is `original` (empty when it did not
    /// exist) writes: the file, under the workspace, as `Path::join` names it; its backup
    /// beside it, with `.bak` after the name, when the former text is not empty; the new text
    /// and the diff. Fails when the edit starts past the file's end.
    pub fn plan_edit(&self, spec: &EditSpec, original: &str, existed: bool) -> (r: Result<EditWrites, HummingbirdError>)
        requires
            !reversed_range(*spec, lines_spec(original@).len() as int),
        ensures
            r is Err <==> edit_start(*spec) > lines_spec(original@).len(),
            r matches Err(e) ==> e matches HummingbirdError::Tool(m) && m@ == past_end_message(*spec, lines_spec(original@).len()),
            r matches Ok(w) ==> w.target@ == joined_path(self.workspace_root@, spec.path@)
                && w.backup_path@ == joined_path(self.workspace_root@, spec.path@) + ".bak"@
                && w.save_backup == (original@.len() > 0)
                && w.text@ == edited_text_spec(original@, existed, *spec)
                && w.unified_diff@ == edit_diff_spec(original@, *spec),
    {
        let (unified_diff, text) = match self.edit_text(spec, original, existed) {
            Ok(x) => x,
            Err(e) => return Err(e),
        };
        let target = join_path(self.workspace_root.as_str(), spec.path.as_str());
        let backup_path = concat2(target.as_str(), ".bak");
        let save_backup = chars_of(original).len() > 0;
        Ok(EditWrites { target, text, backup_path, save_backup, unified_diff })
    }
}

/// A path with each run of `/` made a single `/`: paths that differ only there name the
/// same file.
pub open spec fn collapse_slashes(p: Seq<char>) -> Seq<char>
    decreases p.len(),
{
    if p.len() == 0 {
        p
    } else if p.last() == '/' && p.len() >= 2 && p[p.len() - 2] == '/' {
        collapse_slashes(p.drop_last())
    } else {
        collapse_slashes(p.drop_last()).push(p.last())
    }
}

/// The files, each under its path with runs of `/` collapsed, after an edit's writes: the
/// former text saved at `backup` when it is saved, then the new text at `target`.
pub open spec fn after_edit(
    files: Map<Seq<char>, Seq<char>>,
    target: Seq<char>,
    backup: Seq<char>,
    save_backup: bool,
    original: Seq<char>,
    text: Seq<char>,
) -> Map<Seq<char>, Seq<char>> {
    let saved = if save_backup {
        files.insert(collapse_slashes(backup), original)
    } else {
        files
    };
    saved.insert(collapse_slashes(target), text)
}

/// The files after an undo of `path` under `root` (the saved copy and the file named as
/// `undo_paths` names them): the saved text copied back over the file and the saved copy
/// removed; `None` when there is no saved copy.
pub open spec fn after_undo(files: Map<Seq<char>, Seq<char>>, root: Seq<char>, path: Seq<char>) -> Option<Map<Seq<char>, Seq<char>>> {
    let backup = collapse_slashes(root + "/"@ + path + ".bak"@);
    let target = collapse_slashes(root + "/"@ + path);
    if files.contains_key(backup) {
        Some(files.insert(target, files[backup]).remove(backup))
    } else {
        None
    }
}

/// After a root that ends in `/`, one more `/` names the same file.
proof fn lemma_collapse_extra_slash(root: Seq<char>, t: Seq<char>)
    requires
        root.len() > 0,
        root.last() == '/',
    ensures
        collapse_slashes(root + "/"@ + t) == collapse_slashes(root + t),
    decreases t.len(),
{
    reveal_strlit("/");
    if t.len() == 0 {
        assert(root + "/"@ + t =~= root.push('/'));
        assert(root.push('/').drop_last() =~= root);
        assert(root + t =~= root);
    } else {
        let u = t.drop_last();
        lemma_collapse_extra_slash(root, u);
        let a = root + "/"@ + t;
        let b = root + t;
        assert(a.drop_last() =~= root + "/"@ + u);
        assert(b.drop_last() =~= root + u);
        assert(a.last() == t.last() && b.last() == t.last());
        assert(a[a.len() - 2] == b[b.len() - 2]);
    }
}

/// Text without a `/` is kept as it is after a path.
proof fn lemma_collapse_plain_suffix(x: Seq<char>, t: Seq<char>)
    requires
        forall|i: int| 0 <= i < t.len() ==> t[i] != '/',
    ensures
        collapse_slashes(x + t) == collapse_slashes(x) + t,
    decreases t.len(),
{
    if t.len() == 0 {
        assert(x + t =~= x);
        assert(collapse_slashes(x) + t =~= collapse_slashes(x));
    } else {
        let u = t.drop_last();
        lemma_collapse_plain_suffix(x, u);
        assert((x + t).drop_last() =~= x + u);
        assert(collapse_slashes(x) + t =~= (collapse_slashes(x) + u).push(t.last()));
    }
}

/// Undo puts back what an edit replaced: when an edit of the relative `path` under a
/// non-empty `root` replaced non-empty text, undoing after the edit succeeds, gives the file
/// its former text back, removes the saved copy, and leaves every other file as it was
/// before the edit. The edit names the file as `Path::join` does and undo as `undo_paths`
/// does; for a root that ends in `/` the two differ by one `/` and name the same file.
pub proof fn law_undo_restores(
    files: Map<Seq<char>, Seq<char>>,
    root: Seq<char>,
    path: Seq<char>,
    original: Seq<char>,
    text: Seq<char>,
)
    requires
        root.len() > 0,
        path.len() > 0,
        path[0] != '/',
        original.len() > 0,
    ensures
        ({
            let target = collapse_slashes(joined_path(root, path));
            let backup = collapse_slashes(joined_path(root, path) + ".bak"@);
            let after = after_undo(
                after_edit(files, joined_path(root, path), joined_path(root, path) + ".bak"@, original.len() > 0, original, text),
                root,
                path,
            );
            &&& after is Some
            &&& after->0.contains_key(target) && after->0[target] == original
            &&& !after->0.contains_key(backup)
            &&& forall|k: Seq<char>| #![auto] k != target && k != backup ==> (after->0.contains_key(k) == files.contains_key(k)
                && (files.contains_key(k) ==> after->0[k] == files[k]))
        }),
{
    reveal_strlit(".bak");
    let joined = joined_path(root, path);
    let bak = ".bak"@;
    assert(joined + bak =~= joined_path(root, path + bak));
    assert(root + "/"@ + path + bak =~= root + "/"@ + (path + bak));
    if root.last() == '/' {
        lemma_collapse_extra_slash(root, path);
        lemma_collapse_extra_slash(root, path + bak);
    } else {
        assert(joined == root + "/"@ + path);
    }
    let target = collapse_slashes(joined);
    let backup = collapse_slashes(joined + bak);
    assert(target == collapse_slashes(root + "/"@ + path));
    assert(backup == collapse_slashes(root + "/"@ + path + bak));
    assert forall|i: int| 0 <= i < bak.len() implies bak[i] != '/' by {}
    lemma_collapse_plain_suffix(joined, bak);
    assert(target != backup) by {
        assert(backup.len() == target.len() + 4);
    }
    let edited = after_edit(files, joined, joined + bak, true, original, text);
    assert(edited.contains_key(backup) && edited[backup] == original);
}

/// Where an undo finds the saved text of `path` and where it puts it back:
/// `"{root}/{path}.bak"` and `"{root}/{path}"`.
pub fn undo_paths(workspace_root: &str, path: &str) -> (r: (String, String))
    ensures
        r.0@ == workspace_root@ + "/"@ + path@ + ".bak"@,
        r.1@ == workspace_root@ + "/"@ + path@,
{
    let mut target = concat2(workspace_root, "/");
    push_str(&mut target, path);
    let backup = concat2(target.as_str(), ".bak");
    (backup, target)
}

/// The error of an undo that finds no saved text.
pub fn no_backup_error(path: &str) -> (r: HummingbirdError)
    ensures
        r matches HummingbirdError::Tool(m) && m@ == "No backup found for '"@ + path@ + "'"@,
{
    let mut m = concat2("No backup found for '", path);
    push_char(&mut m, '\'');
    proof {
        reveal_strlit("'");
        assert(m@ =~= "No backup found for '"@ + path@ + "'"@);
    }
    HummingbirdError::Tool(m)
}

/// An edit replaces exactly its lines: for an edit that starts within the file (its first
/// line, counted from one, with line zero taken as line one, at most one past the last
/// line) and does not end before it starts, the lines from its first line through
/// `line_end` (or through the last line, when `line_end` is past it) are removed, the new
/// content's lines stand in their place, and the lines before and after are kept; the diff
/// removes exactly those lines.
pub proof fn law_edit_replaces_its_lines(original: Seq<char>, existed: bool, spec: EditSpec)
    requires
        ({
            let n = lines_spec(original).len() as int;
            let first = if spec.line_start >= 1 { spec.line_start - 1 } else { 0 };
            let last = if spec.line_end <= n { spec.line_end as int } else { n };
            first <= n && first <= last
        }),
    ensures
        ({
            let ls = lines_spec(original);
            let n = ls.len() as int;
            let first = if spec.line_start >= 1 { spec.line_start - 1 } else { 0 };
            let last = if spec.line_end <= n { spec.line_end as int } else { n };
            let body = seq_join(ls.subrange(0, first) + lines_spec(spec.new_content@) + ls.subrange(last, n), "\n"@);
            &&& edit_start(spec) == first
            &&& edit_end(spec, n) == last
            &&& !reversed_range(spec, n)
            &&& edit_start(spec) <= n
            &&& edited_text_spec(original, existed, spec) == if existed && original.len() > 0 && original.last() == '\n' {
                body + "\n"@
            } else {
                body
            }
            &&& edit_diff_spec(original, spec) == unified_diff_spec(
                spec.path@,
                ls.subrange(first, last),
                lines_spec(spec.new_content@),
                first as nat,
            )
        }),
{
}

} // verus!
