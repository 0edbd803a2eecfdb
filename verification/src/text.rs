//! Text utilities over character sequences: conversion to and from `String`,
//! line splitting, joining, prefixes, substrings, trimming and number formatting.
use vstd::prelude::*;

verus! {

// ---------------------------------------------------------------------------------------------
// Conversions between `str` and character vectors (std)
// ---------------------------------------------------------------------------------------------

/// The characters of `s`, in order (std's `str::chars`, collected).
#[verifier::external_body]
pub(crate) fn chars_of(s: &str) -> (r: Vec<char>)
    ensures
        r@ == s@,
{
    s.chars().collect()
}

/// The string made of `chars[from..to]` (std's `FromIterator<char>` for `String`).
#[verifier::external_body]
pub(crate) fn string_of(chars: &[char], from: usize, to: usize) -> (r: String)
    requires
        from <= to <= chars@.len(),
    ensures
        r@ == chars@.subrange(from as int, to as int),
{
    chars[from..to].iter().collect()
}

/// Appends one character (std's `String::push`).
#[verifier::external_body]
pub(crate) fn push_char(s: &mut String, c: char)
    ensures
        final(s)@ == old(s)@.push(c),
{
    s.push(c)
}

/// Appends a string (std's `String::push_str`).
#[verifier::external_body]
pub(crate) fn push_str(s: &mut String, t: &str)
    ensures
        final(s)@ == old(s)@ + t@,
{
    s.push_str(t)
}

/// A new string with the contents of `s` (std's `str::to_string`).
#[verifier::external_body]
pub(crate) fn owned(s: &str) -> (r: String)
    ensures
        r@ == s@,
{
    s.to_string()
}

/// What std's `str::to_lowercase` returns for a string: the Unicode lowercase mapping of
/// each character, concatenated.
pub uninterp spec fn lowercase(s: Seq<char>) -> Seq<char>;

/// Every character of `s` is ASCII.
pub open spec fn all_ascii(s: Seq<char>) -> bool {
    forall|i: int| 0 <= i < s.len() ==> (s[i] as u32) < 128
}

/// The ASCII lowercase of a character: `A` to `Z` become `a` to `z`, any other character
/// stays as it is.
pub open spec fn ascii_lower_char(c: char) -> char {
    if 65 <= (c as u32) && (c as u32) <= 90 {
        ((c as u32) + 32) as char
    } else {
        c
    }
}

/// std's `str::to_lowercase`; the result is named by `lowercase`. Of an ASCII string it
/// states what the Unicode mapping is there: each capital letter becomes its small letter,
/// every other character is kept.
#[verifier::external_body]
pub(crate) fn to_lowercase(s: &str) -> (r: String)
    ensures
        r@ == lowercase(s@),
        all_ascii(s@) ==> r@ == s@.map_values(|c: char| ascii_lower_char(c)),
{
    s.to_lowercase()
}

/// The number of bytes of the UTF-8 encoding of `s`.
pub open spec fn byte_len(s: Seq<char>) -> nat {
    vstd::utf8::encode_utf8(s).len()
}

/// The length of `s` in bytes (std's `str::len`).
#[verifier::external_body]
pub(crate) fn byte_len_of(s: &str) -> (r: usize)
    ensures
        r == byte_len(s@),
{
    s.len()
}

/// The contents of a vector of strings, as character sequences.
pub open spec fn strs(v: Seq<String>) -> Seq<Seq<char>> {
    v.map_values(|x: String| x@)
}

/// Appending a string appends its contents.
pub proof fn lemma_strs_push(s: Seq<String>, x: String)
    ensures
        strs(s.push(x)) == strs(s).push(x@),
{
    assert(strs(s.push(x)) =~= strs(s).push(x@));
}

// ---------------------------------------------------------------------------------------------
// Concatenation
// ---------------------------------------------------------------------------------------------

/// `a` followed by `b`.
pub fn concat2(a: &str, b: &str) -> (r: String)
    ensures
        r@ == a@ + b@,
{
    let mut r = owned(a);
    push_str(&mut r, b);
    r
}

/// `a`, `b` and `c` in order.
pub fn concat3(a: &str, b: &str, c: &str) -> (r: String)
    ensures
        r@ == a@ + b@ + c@,
{
    let mut r = owned(a);
    push_str(&mut r, b);
    push_str(&mut r, c);
    r
}

/// The parts joined with `sep` between each two of them (as `[String]::join`).
pub open spec fn seq_join(parts: Seq<Seq<char>>, sep: Seq<char>) -> Seq<char>
    decreases parts.len(),
{
    if parts.len() == 0 {
        seq![]
    } else if parts.len() == 1 {
        parts[0]
    } else {
        seq_join(parts.drop_last(), sep) + sep + parts.last()
    }
}

/// Joins strings with a separator.
pub fn join(parts: &Vec<String>, sep: &str) -> (r: String)
    ensures
        r@ == seq_join(strs(parts@), sep@),
{
    let mut r = String::new();
    let n = parts.len();
    let mut i: usize = 0;
    while i < n
        invariant
            n == parts@.len(),
            i <= n,
            r@ == seq_join(strs(parts@).take(i as int), sep@),
        decreases n - i,
    {
        assert(strs(parts@).take(i + 1).drop_last() =~= strs(parts@).take(i as int));
        if i != 0 {
            push_str(&mut r, sep);
        }
        push_str(&mut r, parts[i].as_str());
        i = i + 1;
    }
    assert(strs(parts@).take(n as int) =~= strs(parts@));
    r
}

// ---------------------------------------------------------------------------------------------
// Prefixes, suffixes and substrings
// ---------------------------------------------------------------------------------------------

/// `p` is a prefix of `s`.
pub open spec fn has_prefix(s: Seq<char>, p: Seq<char>) -> bool {
    p.len() <= s.len() && s.subrange(0, p.len() as int) == p
}

/// `p` occurs in `s` starting at index `i`.
pub open spec fn occurs_at(s: Seq<char>, p: Seq<char>, i: int) -> bool {
    0 <= i && i + p.len() <= s.len() && s.subrange(i, i + p.len()) == p
}

/// `p` occurs somewhere in `s`.
pub open spec fn has_substring(s: Seq<char>, p: Seq<char>) -> bool {
    exists|i: int| occurs_at(s, p, i)
}

/// The first index at which `p` occurs in `s`, if any.
#[verifier::opaque]
pub open spec fn first_occurrence(s: Seq<char>, p: Seq<char>) -> Option<int> {
    if has_substring(s, p) {
        Some(choose|i: int| occurs_at(s, p, i) && forall|j: int| 0 <= j < i ==> !occurs_at(s, p, j))
    } else {
        None
    }
}

/// An occurrence with none before it is the first occurrence.
pub proof fn lemma_first_occurrence(s: Seq<char>, p: Seq<char>, i: int)
    requires
        occurs_at(s, p, i),
        forall|j: int| 0 <= j < i ==> !occurs_at(s, p, j),
    ensures
        first_occurrence(s, p) == Some(i),
{
    reveal(first_occurrence);
    assert(has_substring(s, p));
    let c = choose|k: int| occurs_at(s, p, k) && forall|j: int| 0 <= j < k ==> !occurs_at(s, p, j);
    assert(occurs_at(s, p, c) && forall|j: int| 0 <= j < c ==> !occurs_at(s, p, j));
    if c < i {
        assert(!occurs_at(s, p, c));
    } else if c > i {
        assert(!occurs_at(s, p, i));
    }
}

/// Checks whether `p` occurs in `s` at `i` (both as character vectors).
pub fn occurs_at_exec(s: &Vec<char>, p: &Vec<char>, i: usize) -> (r: bool)
    ensures
        r == occurs_at(s@, p@, i as int),
{
    let sl = s.len();
    if p.len() > sl || i > sl - p.len() {
        return false;
    }
    let mut k: usize = 0;
    while k < p.len()
        invariant
            sl == s@.len(),
            i + p@.len() <= s@.len(),
            k <= p@.len(),
            forall|m: int| 0 <= m < k ==> s@[i + m] == p@[m],
        decreases p@.len() - k,
    {
        assert(i + k < s@.len());
        let idx: usize = i + k;
        if s[idx] != p[k] {
            assert(s@.subrange(i as int, i + p@.len())[k as int] != p@[k as int]);
            return false;
        }
        k = k + 1;
    }
    assert(s@.subrange(i as int, i + p@.len()) =~= p@);
    true
}

/// The first index at which `p` occurs in `s` (character vectors).
pub fn find_chars(s: &Vec<char>, p: &Vec<char>) -> (r: Option<usize>)
    ensures
        r matches Some(i) ==> first_occurrence(s@, p@) == Some(i as int) && occurs_at(s@, p@, i as int),
        r is None ==> first_occurrence(s@, p@) is None,
{
    let n = s.len();
    let mut i: usize = 0;
    loop
        invariant
            n == s@.len(),
            i <= n,
            forall|j: int| 0 <= j < i ==> !occurs_at(s@, p@, j),
        decreases n - i,
    {
        if occurs_at_exec(s, p, i) {
            proof {
                lemma_first_occurrence(s@, p@, i as int);
            }
            return Some(i);
        }
        if i == n {
            reveal(first_occurrence);
            assert(!has_substring(s@, p@)) by {
                assert forall|j: int| !occurs_at(s@, p@, j) by {
                    if occurs_at(s@, p@, j) {
                        assert(j <= n);
                    }
                }
            }
            return None;
        }
        i = i + 1;
    }
}

/// The first index (in characters) at which `p` occurs in `s`.
pub fn find(s: &str, p: &str) -> (r: Option<usize>)
    ensures
        r matches Some(i) ==> first_occurrence(s@, p@) == Some(i as int) && occurs_at(s@, p@, i as int),
        r is None ==> first_occurrence(s@, p@) is None,
{
    let sc = chars_of(s);
    let pc = chars_of(p);
    find_chars(&sc, &pc)
}

/// Whether `s` contains `p`.
pub fn contains(s: &str, p: &str) -> (r: bool)
    ensures
        r == has_substring(s@, p@),
{
    proof {
        reveal(first_occurrence);
    }
    find(s, p).is_some()
}

/// Whether `s` starts with `p`.
pub fn starts_with(s: &str, p: &str) -> (r: bool)
    ensures
        r == has_prefix(s@, p@),
{
    let sc = chars_of(s);
    let pc = chars_of(p);
    let r = occurs_at_exec(&sc, &pc, 0);
    r
}

/// `s` with the prefix `p` removed, when `s` starts with `p` (as `str::strip_prefix`).
pub fn strip_prefix(s: &str, p: &str) -> (r: Option<String>)
    ensures
        r is Some <==> has_prefix(s@, p@),
        r matches Some(t) ==> t@ == s@.subrange(p@.len() as int, s@.len() as int),
{
    let sc = chars_of(s);
    let pc = chars_of(p);
    if occurs_at_exec(&sc, &pc, 0) {
        Some(string_of(sc.as_slice(), pc.len(), sc.len()))
    } else {
        None
    }
}

/// `s` with every leading occurrence of `p` removed (as `str::trim_start_matches` with a
/// string pattern).
pub open spec fn trim_start_matches_spec(s: Seq<char>, p: Seq<char>) -> Seq<char>
    decreases s.len(),
{
    if p.len() > 0 && has_prefix(s, p) {
        trim_start_matches_spec(s.subrange(p.len() as int, s.len() as int), p)
    } else {
        s
    }
}

/// Removes every leading occurrence of `p` from `s`.
pub fn trim_start_matches(s: &str, p: &str) -> (r: String)
    ensures
        r@ == trim_start_matches_spec(s@, p@),
{
    let sc = chars_of(s);
    let pc = chars_of(p);
    let mut start: usize = 0;
    if pc.len() == 0 {
        return owned(s);
    }
    assert(sc@.subrange(0, sc@.len() as int) =~= sc@);
    while pc.len() <= sc.len() - start && occurs_at_exec(&sc, &pc, start)
        invariant
            pc@.len() > 0,
            start <= sc@.len(),
            trim_start_matches_spec(sc@.subrange(start as int, sc@.len() as int), pc@)
                == trim_start_matches_spec(sc@, pc@),
        decreases sc@.len() - start,
    {
        let ghost rest = sc@.subrange(start as int, sc@.len() as int);
        assert(rest.subrange(0, pc@.len() as int) =~= sc@.subrange(start as int, start + pc@.len()));
        assert(rest.subrange(pc@.len() as int, rest.len() as int)
            =~= sc@.subrange(start + pc@.len(), sc@.len() as int));
        start = start + pc.len();
    }
    proof {
        let rest = sc@.subrange(start as int, sc@.len() as int);
        if has_prefix(rest, pc@) {
            assert(rest.subrange(0, pc@.len() as int) =~= sc@.subrange(start as int, start + pc@.len()));
        }
    }
    string_of(sc.as_slice(), start, sc.len())
}

// ---------------------------------------------------------------------------------------------
// Whitespace trimming
// ---------------------------------------------------------------------------------------------

/// The characters with the Unicode `White_Space` property (as `char::is_whitespace`).
pub open spec fn is_ws(c: char) -> bool {
    let u = c as u32;
    (9 <= u <= 13) || u == 32 || u == 0x85 || u == 0xA0 || u == 0x1680 || (0x2000 <= u <= 0x200A)
        || u == 0x2028 || u == 0x2029 || u == 0x202F || u == 0x205F || u == 0x3000
}

/// Decides `is_ws`.
pub fn is_whitespace(c: char) -> (r: bool)
    ensures
        r == is_ws(c),
{
    let u = c as u32;
    (9 <= u && u <= 13) || u == 32 || u == 0x85 || u == 0xA0 || u == 0x1680 || (0x2000 <= u && u
        <= 0x200A) || u == 0x2028 || u == 0x2029 || u == 0x202F || u == 0x205F || u == 0x3000
}

/// `s` without leading whitespace.
pub open spec fn trim_start_spec(s: Seq<char>) -> Seq<char>
    decreases s.len(),
{
    if s.len() > 0 && is_ws(s[0]) {
        trim_start_spec(s.drop_first())
    } else {
        s
    }
}

/// `s` without trailing whitespace.
pub open spec fn trim_end_spec(s: Seq<char>) -> Seq<char>
    decreases s.len(),
{
    if s.len() > 0 && is_ws(s.last()) {
        trim_end_spec(s.drop_last())
    } else {
        s
    }
}

/// `s` without leading and trailing whitespace (as `str::trim`).
pub open spec fn trim_spec(s: Seq<char>) -> Seq<char> {
    trim_end_spec(trim_start_spec(s))
}

/// Removes leading and trailing whitespace.
pub fn trim(s: &str) -> (r: String)
    ensures
        r@ == trim_spec(s@),
{
    let sc = chars_of(s);
    let mut a: usize = 0;
    assert(sc@.subrange(0, sc@.len() as int) =~= sc@);
    while a < sc.len() && is_whitespace(sc[a])
        invariant
            a <= sc@.len(),
            trim_start_spec(sc@.subrange(a as int, sc@.len() as int)) == trim_start_spec(sc@),
        decreases sc@.len() - a,
    {
        assert(sc@.subrange(a as int, sc@.len() as int).drop_first() =~= sc@.subrange(a + 1, sc@.len() as int));
        a = a + 1;
    }
    assert(trim_start_spec(sc@.subrange(a as int, sc@.len() as int)) == sc@.subrange(a as int, sc@.len() as int));
    let mut b: usize = sc.len();
    while b > a && is_whitespace(sc[b - 1])
        invariant
            a <= b <= sc@.len(),
            trim_end_spec(sc@.subrange(a as int, b as int)) == trim_spec(sc@),
        decreases b,
    {
        assert(sc@.subrange(a as int, b as int).drop_last() =~= sc@.subrange(a as int, b - 1));
        b = b - 1;
    }
    string_of(sc.as_slice(), a, b)
}

// ---------------------------------------------------------------------------------------------
// Lines
// ---------------------------------------------------------------------------------------------

/// The pieces of `s` between `'\n'` characters (as `str::split('\n')`): never empty.
pub open spec fn split_newlines(s: Seq<char>) -> Seq<Seq<char>>
    decreases s.len(),
{
    if s.len() == 0 {
        seq![seq![]]
    } else if s.last() == '\n' {
        split_newlines(s.drop_last()).push(seq![])
    } else {
        let p = split_newlines(s.drop_last());
        p.update(p.len() - 1, p.last().push(s.last()))
    }
}

/// `l` without one trailing `'\r'`.
pub open spec fn strip_cr(l: Seq<char>) -> Seq<char> {
    if l.len() > 0 && l.last() == '\r' {
        l.drop_last()
    } else {
        l
    }
}

/// The lines of `s` (as `str::lines`): split at `'\n'`, each line that ended in `'\n'` loses
/// one trailing `'\r'`, and an empty final piece is not a line.
pub open spec fn lines_spec(s: Seq<char>) -> Seq<Seq<char>> {
    let p = split_newlines(s);
    let done = p.drop_last().map_values(|l: Seq<char>| strip_cr(l));
    if p.last().len() == 0 {
        done
    } else {
        done.push(p.last())
    }
}

proof fn lemma_split_newlines_nonempty(s: Seq<char>)
    ensures
        split_newlines(s).len() >= 1,
    decreases s.len(),
{
    if s.len() > 0 {
        lemma_split_newlines_nonempty(s.drop_last());
    }
}

/// `s` has at least as many characters as lines.
pub proof fn lemma_lines_len(s: Seq<char>)
    ensures
        lines_spec(s).len() <= s.len(),
{
    lemma_split_len(s);
}

proof fn lemma_split_len(s: Seq<char>)
    ensures
        split_newlines(s).len() <= s.len() + 1,
        split_newlines(s).len() >= 1,
        split_newlines(s).last().len() == 0 ==> split_newlines(s).len() <= s.len() + 1,
        split_newlines(s).last().len() > 0 ==> split_newlines(s).len() <= s.len(),
    decreases s.len(),
{
    lemma_split_newlines_nonempty(s);
    if s.len() > 0 {
        lemma_split_len(s.drop_last());
    }
}

/// Splits `s` into lines, as `str::lines` does.
pub fn lines(s: &str) -> (r: Vec<String>)
    ensures
        strs(r@) == lines_spec(s@),
{
    let sc = chars_of(s);
    let n = sc.len();
    let mut done: Vec<String> = Vec::new();
    let mut start: usize = 0;
    let mut i: usize = 0;
    let ghost mut pieces: Seq<Seq<char>> = seq![seq![]];
    while i < n
        invariant
            n == sc@.len(),
            start <= i <= n,
            pieces == split_newlines(sc@.subrange(0, i as int)),
            pieces.len() == done@.len() + 1,
            pieces.last() == sc@.subrange(start as int, i as int),
            strs(done@) == pieces.drop_last().map_values(|l: Seq<char>| strip_cr(l)),
        decreases n - i,
    {
        let ghost pre = sc@.subrange(0, i as int);
        assert(sc@.subrange(0, i + 1).drop_last() =~= pre);
        assert(sc@.subrange(0, i + 1).last() == sc@[i as int]);
        if sc[i] == '\n' {
            let mut end = i;
            if end > start && sc[end - 1] == '\r' {
                end = end - 1;
            }
            let line = string_of(sc.as_slice(), start, end);
            proof {
                assert(line@ =~= strip_cr(sc@.subrange(start as int, i as int)));
            }
            let ghost old_done = done@;
            done.push(line);
            proof {
                let np = pieces.push(seq![]);
                assert(np.drop_last() =~= pieces);
                assert(strs(done@) =~= strs(old_done).push(line@));
                assert(pieces =~= pieces.drop_last().push(pieces.last()));
                assert(pieces.map_values(|l: Seq<char>| strip_cr(l)) =~= pieces.drop_last().map_values(
                    |l: Seq<char>| strip_cr(l),
                ).push(strip_cr(pieces.last())));
                assert(strs(done@) =~= np.drop_last().map_values(|l: Seq<char>| strip_cr(l)));
                pieces = np;
            }
            start = i + 1;
        } else {
            proof {
                let np = pieces.update(pieces.len() - 1, pieces.last().push(sc@[i as int]));
                assert(np.drop_last() =~= pieces.drop_last());
                assert(np.last() =~= sc@.subrange(start as int, i + 1));
                pieces = np;
            }
        }
        i = i + 1;
    }
    assert(sc@.subrange(0, n as int) =~= sc@);
    if start < n {
        let last = string_of(sc.as_slice(), start, n);
        done.push(last);
        assert(strs(done@) =~= lines_spec(sc@));
    } else {
        assert(strs(done@) =~= lines_spec(sc@));
    }
    done
}

// ---------------------------------------------------------------------------------------------
// Number formatting
// ---------------------------------------------------------------------------------------------

/// The character of a digit below sixteen (lowercase for letters).
pub open spec fn digit_char(d: nat) -> char {
    if d < 10 {
        (48 + d) as char
    } else {
        (87 + d) as char
    }
}

/// The digits of `n` in base `b` (2 <= b <= 16), most significant first, without leading zeros.
pub open spec fn digits(n: nat, b: nat) -> Seq<char>
    recommends
        2 <= b <= 16,
    decreases n,
{
    if b < 2 || n < b {
        seq![digit_char(n % 16)]
    } else {
        proof {
            assert(n / b < n) by (nonlinear_arith)
                requires
                    b >= 2,
                    n >= b,
            ;
        }
        digits(n / b, b).push(digit_char(n % b))
    }
}

/// The decimal form of `n` (as `Display` for unsigned integers).
pub open spec fn decimal(n: nat) -> Seq<char> {
    digits(n, 10)
}

/// The decimal form of a signed integer (as `Display` for signed integers).
pub open spec fn decimal_int(n: int) -> Seq<char> {
    if n < 0 {
        seq!['-'] + decimal((-n) as nat)
    } else {
        decimal(n as nat)
    }
}

/// The lowercase hexadecimal form of `n`, padded with zeros on the left to at least
/// `width` characters (as the format `{:0width$x}`).
pub open spec fn hex_padded(n: nat, width: nat) -> Seq<char> {
    let h = digits(n, 16);
    if h.len() < width {
        Seq::new((width - h.len()) as nat, |i: int| '0') + h
    } else {
        h
    }
}

fn digit_of(d: u64) -> (c: char)
    requires
        d < 16,
    ensures
        c == digit_char(d as nat),
{
    if d < 10 {
        ((48 + d) as u8) as char
    } else {
        ((87 + d) as u8) as char
    }
}

/// Appends the digits of `n` in base `b`.
pub fn push_digits(out: &mut String, n: u64, b: u64)
    requires
        2 <= b <= 16,
    ensures
        final(out)@ == old(out)@ + digits(n as nat, b as nat),
    decreases n,
{
    if n < b {
        let c = digit_of(n);
        assert(n % 16 == n);
        push_char(out, c);
    } else {
        assert(n / b < n) by (nonlinear_arith)
            requires
                b >= 2,
                n >= b,
        ;
        push_digits(out, n / b, b);
        let c = digit_of(n % b);
        push_char(out, c);
    }
}

/// Appends the decimal form of `n`.
pub fn push_decimal(out: &mut String, n: u64)
    ensures
        final(out)@ == old(out)@ + decimal(n as nat),
{
    push_digits(out, n, 10)
}

/// The decimal form of a signed `n`.
pub fn decimal_string_i64(n: i64) -> (r: String)
    ensures
        r@ == decimal_int(n as int),
{
    let mut s = String::new();
    if n < 0 {
        push_char(&mut s, '-');
        let m: u64 = if n == i64::MIN {
            9223372036854775808u64
        } else {
            (-n) as u64
        };
        push_decimal(&mut s, m);
    } else {
        push_decimal(&mut s, n as u64);
        assert(s@ =~= decimal_int(n as int));
    }
    s
}

/// The lowercase hexadecimal form of `n`, zero-padded to at least `width` characters.
pub fn hex_string_padded(n: u64, width: usize) -> (r: String)
    ensures
        r@ == hex_padded(n as nat, width as nat),
{
    let mut h = String::new();
    push_digits(&mut h, n, 16);
    assert(h@ =~= digits(n as nat, 16));
    let hc = chars_of(h.as_str());
    if hc.len() < width {
        let mut s = String::new();
        let pad = width - hc.len();
        let mut i: usize = 0;
        while i < pad
            invariant
                i <= pad,
                s@ == Seq::new(i as nat, |k: int| '0'),
            decreases pad - i,
        {
            push_char(&mut s, '0');
            assert(s@ =~= Seq::new((i + 1) as nat, |k: int| '0'));
            i = i + 1;
        }
        push_str(&mut s, h.as_str());
        s
    } else {
        h
    }
}

/// The value of one lowercase hexadecimal digit.
pub open spec fn hex_digit_value(c: char) -> nat {
    if (c as int) < 87 {
        ((c as int) - 48) as nat
    } else {
        ((c as int) - 87) as nat
    }
}

/// The number written by lowercase hexadecimal digits, most significant first.
pub open spec fn hex_value(s: Seq<char>) -> nat
    decreases s.len(),
{
    if s.len() == 0 {
        0
    } else {
        hex_value(s.drop_last()) * 16 + hex_digit_value(s.last())
    }
}

/// Sixteen to the power `k`.
pub open spec fn pow16(k: nat) -> nat
    decreases k,
{
    if k == 0 {
        1
    } else {
        16 * pow16((k - 1) as nat)
    }
}

/// A digit below sixteen is worth itself.
proof fn lemma_hex_digit(d: nat)
    requires
        d < 16,
    ensures
        hex_digit_value(digit_char(d)) == d,
{
    if d < 10 {
        assert(((48 + d) as char) as int == 48 + d);
    } else {
        assert(((87 + d) as char) as int == 87 + d);
    }
}

/// The hexadecimal digits of `n` are worth `n`.
pub proof fn lemma_hex_digits_value(n: nat)
    ensures
        hex_value(digits(n, 16)) == n,
    decreases n,
{
    if n < 16 {
        lemma_hex_digit(n);
        assert(n % 16 == n);
        let d = digits(n, 16);
        assert(d =~= seq![digit_char(n)]);
        assert(d.drop_last() =~= Seq::<char>::empty());
        assert(hex_value(Seq::<char>::empty()) == 0);
        assert(hex_value(d) == hex_value(d.drop_last()) * 16 + hex_digit_value(d.last()));
    } else {
        lemma_hex_digit(n % 16);
        assert(n / 16 < n);
        lemma_hex_digits_value(n / 16);
        let d = digits(n, 16);
        assert(d == digits(n / 16, 16).push(digit_char(n % 16)));
        assert(d.drop_last() =~= digits(n / 16, 16));
        assert(hex_value(d) == hex_value(d.drop_last()) * 16 + hex_digit_value(d.last()));
        assert((n / 16) * 16 + n % 16 == n);
    }
}

/// Leading zeros add nothing to the value.
pub proof fn lemma_hex_leading_zeros(k: nat, s: Seq<char>)
    ensures
        hex_value(Seq::new(k, |i: int| '0') + s) == hex_value(s),
    decreases s.len(),
{
    let z = Seq::new(k, |i: int| '0');
    if s.len() == 0 {
        assert(z + s =~= z);
        lemma_hex_zeros(k);
    } else {
        lemma_hex_leading_zeros(k, s.drop_last());
        assert((z + s).drop_last() =~= z + s.drop_last());
        assert((z + s).last() == s.last());
    }
}

/// A run of zeros is worth nothing.
proof fn lemma_hex_zeros(k: nat)
    ensures
        hex_value(Seq::new(k, |i: int| '0')) == 0,
    decreases k,
{
    if k > 0 {
        lemma_hex_zeros((k - 1) as nat);
        assert(Seq::new(k, |i: int| '0').drop_last() =~= Seq::new((k - 1) as nat, |i: int| '0'));
    }
}

/// A number below sixteen to the power `k` has at most `k` hexadecimal digits.
pub proof fn lemma_hex_digits_len(n: nat, k: nat)
    requires
        k >= 1,
        n < pow16(k),
    ensures
        digits(n, 16).len() <= k,
    decreases n,
{
    if n >= 16 {
        assert(k >= 2) by {
            if k == 1 {
                assert(pow16(1) == 16 * pow16(0));
            }
        }
        assert(pow16(k) == 16 * pow16((k - 1) as nat));
        assert(n / 16 < pow16((k - 1) as nat));
        lemma_hex_digits_len(n / 16, (k - 1) as nat);
    }
}

/// The padded hexadecimal form of `n` is worth `n`.
pub proof fn lemma_hex_padded_value(n: nat, width: nat)
    ensures
        hex_value(hex_padded(n, width)) == n,
        hex_padded(n, width).len() >= width,
{
    lemma_hex_digits_value(n);
    let h = digits(n, 16);
    if h.len() < width {
        lemma_hex_leading_zeros((width - h.len()) as nat, h);
    }
}

} // verus!

verus! {

// ---------------------------------------------------------------------------------------------
// Ordering of strings
// ---------------------------------------------------------------------------------------------

/// `a` comes strictly before `b` in lexicographic order of code points (the order of
/// `String`'s `Ord`).
pub open spec fn lex_lt(a: Seq<char>, b: Seq<char>) -> bool
    decreases a.len(),
{
    if a.len() == 0 {
        b.len() > 0
    } else if b.len() == 0 {
        false
    } else if a[0] != b[0] {
        a[0] < b[0]
    } else {
        lex_lt(a.drop_first(), b.drop_first())
    }
}

/// `a` comes before `b`, or they are equal.
pub open spec fn lex_le(a: Seq<char>, b: Seq<char>) -> bool {
    a == b || lex_lt(a, b)
}

/// The strings are in ascending order.
pub open spec fn sorted_strs(s: Seq<Seq<char>>) -> bool {
    forall|i: int, j: int| 0 <= i < j < s.len() ==> lex_le(s[i], s[j])
}

/// Lexicographic order is transitive.
pub proof fn lemma_lex_lt_transitive(a: Seq<char>, b: Seq<char>, c: Seq<char>)
    requires
        lex_lt(a, b),
        lex_lt(b, c),
    ensures
        lex_lt(a, c),
    decreases a.len(),
{
    if a.len() > 0 && b.len() > 0 && c.len() > 0 && a[0] == b[0] && b[0] == c[0] {
        lemma_lex_lt_transitive(a.drop_first(), b.drop_first(), c.drop_first());
    }
}

/// Of two different strings, one comes before the other.
pub proof fn lemma_lex_total(a: Seq<char>, b: Seq<char>)
    ensures
        a == b || lex_lt(a, b) || lex_lt(b, a),
    decreases a.len(),
{
    if a.len() > 0 && b.len() > 0 {
        if a[0] == b[0] {
            lemma_lex_total(a.drop_first(), b.drop_first());
            if a.drop_first() == b.drop_first() {
                assert(a =~= seq![a[0]] + a.drop_first());
                assert(b =~= seq![b[0]] + b.drop_first());
            }
        }
    } else if a.len() == 0 && b.len() == 0 {
        assert(a =~= b);
    }
}

/// No string comes strictly before itself.
pub proof fn lemma_lex_irreflexive(a: Seq<char>)
    ensures
        !lex_lt(a, a),
    decreases a.len(),
{
    if a.len() > 0 {
        lemma_lex_irreflexive(a.drop_first());
    }
}

/// Whether `a` comes strictly before `b`.
pub fn str_lt(a: &str, b: &str) -> (r: bool)
    ensures
        r == lex_lt(a@, b@),
{
    let ac = chars_of(a);
    let bc = chars_of(b);
    let mut i: usize = 0;
    assert(ac@.subrange(0, ac@.len() as int) =~= ac@);
    assert(bc@.subrange(0, bc@.len() as int) =~= bc@);
    while i < ac.len() && i < bc.len() && ac[i] == bc[i]
        invariant
            i <= ac@.len(),
            i <= bc@.len(),
            ac@.subrange(0, i as int) == bc@.subrange(0, i as int),
            lex_lt(ac@.subrange(i as int, ac@.len() as int), bc@.subrange(i as int, bc@.len() as int))
                == lex_lt(ac@, bc@),
        decreases ac@.len() - i,
    {
        assert(ac@.subrange(i as int, ac@.len() as int).drop_first() =~= ac@.subrange(i + 1, ac@.len() as int));
        assert(bc@.subrange(i as int, bc@.len() as int).drop_first() =~= bc@.subrange(i + 1, bc@.len() as int));
        assert(ac@.subrange(0, i + 1) =~= ac@.subrange(0, i as int).push(ac@[i as int]));
        assert(bc@.subrange(0, i + 1) =~= bc@.subrange(0, i as int).push(bc@[i as int]));
        i = i + 1;
    }
    if i == ac.len() {
        i < bc.len()
    } else if i == bc.len() {
        false
    } else {
        ac[i] < bc[i]
    }
}

/// Sorts strings in ascending order (as `sort` on a vector of strings).
pub fn sort_strings(v: Vec<String>) -> (r: Vec<String>)
    ensures
        sorted_strs(strs(r@)),
        strs(r@).to_multiset() == strs(v@).to_multiset(),
{
    broadcast use vstd::seq_lib::group_to_multiset_ensures;

    let mut input = v;
    let mut out: Vec<String> = Vec::new();
    proof {
        assert(strs(out@) =~= seq![]);
    }
    while input.len() > 0
        invariant
            sorted_strs(strs(out@)),
            strs(out@).to_multiset().add(strs(input@).to_multiset()) == strs(v@).to_multiset(),
        decreases input@.len(),
    {
        let ghost in_before = input@;
        let x = input.pop().unwrap();
        proof {
            assert(in_before =~= input@.push(x));
            lemma_strs_push(input@, x);
        }
        let mut j = out.len();
        while j > 0 && str_lt(x.as_str(), out[j - 1].as_str())
            invariant
                j <= out@.len(),
                forall|k: int| j <= k < out@.len() ==> lex_lt(x@, out@[k]@),
            decreases j,
        {
            j = j - 1;
        }
        let ghost before = out@;
        out.insert(j, x);
        proof {
            let sb = strs(before);
            let sa = strs(out@);
            assert(sa =~= sb.subrange(0, j as int) + seq![x@] + sb.subrange(j as int, sb.len() as int));
            if j > 0 {
                lemma_lex_total(x@, sb[j - 1]);
            }
            assert forall|a: int, b: int| 0 <= a < b < sa.len() implies lex_le(sa[a], sa[b]) by {
                if a < j && b == j {
                    assert(lex_le(sb[j - 1], x@));
                    if a < j - 1 {
                        assert(lex_le(sb[a], sb[j - 1]));
                    }
                    if sb[a] != sb[j - 1] && sb[j - 1] != x@ {
                        lemma_lex_lt_transitive(sb[a], sb[j - 1], x@);
                    }
                } else if a == j && b > j {
                    assert(lex_lt(x@, before[b - 1]@));
                } else if a < j && b > j {
                    assert(lex_le(sb[a], sb[b - 1]));
                } else if a > j {
                    assert(lex_le(sb[a - 1], sb[b - 1]));
                }
            }
            assert(sa.remove(j as int) =~= sb);
            assert(sa[j as int] == x@);
            sa.to_multiset_ensures();
            assert(sa.remove(j as int).to_multiset() =~= sa.to_multiset().remove(sa[j as int]));
            assert(sa.contains(x@));
            assert(sa.to_multiset().count(x@) > 0);
            assert(sa.to_multiset() =~= sa.to_multiset().remove(x@).insert(x@));
            assert(sa.to_multiset() =~= sb.to_multiset().insert(x@));
            assert(strs(in_before) =~= strs(input@).push(x@));
            strs(input@).to_multiset_ensures();
        }
    }
    proof {
        assert(strs(input@) =~= seq![]);
        assert(strs(input@).to_multiset() =~= vstd::multiset::Multiset::empty());
    }
    out
}

} // verus!
