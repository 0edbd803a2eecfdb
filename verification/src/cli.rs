//! The command line: the subcommands, their options and arguments, and how the words of a
//! command line are read into them.
use vstd::prelude::*;
use crate::agent::DEFAULT_MAX_ITERATIONS;
use crate::text::{chars_of, concat2, find_chars, first_occurrence, lemma_first_occurrence, occurs_at, owned, string_of, strs};

verus! {

/// The version of the program.
pub const VERSION: &'static str = "0.1.0";

/// A parsed command line.
#[derive(Debug)]
pub struct Cli {
    pub command: Commands,
}

/// The subcommands.
#[derive(Debug)]
pub enum Commands {
    /// Run the agent with a one-shot prompt.
    Run {
        prompt: String,
        model: Option<String>,
        provider: Option<String>,
        max_iterations: u32,
        stream: bool,
    },
    /// Start an interactive session.
    Chat { session: Option<String>, model: Option<String> },
    /// Manage saved sessions.
    Session { action: SessionAction },
    /// Show or set configuration values.
    Config { action: ConfigAction },
    /// Write a project configuration file in the current directory.
    Init,
}

/// What to do with saved sessions.
#[derive(Debug)]
pub enum SessionAction {
    List,
    Resume { id: String },
    Delete { id: String },
}

/// What to do with the configuration.
#[derive(Debug)]
pub enum ConfigAction {
    Show,
    SetValue { key: String, value: String },
}

/// Why a command line was not accepted, or what it asks for instead of a command.
#[derive(Debug)]
pub enum CliError {
    /// `--help`, `-h` or `help`: the caller shows the usage.
    DisplayHelp,
    /// `--version` or `-V` before the subcommand: the caller shows the version.
    DisplayVersion,
    /// No subcommand was given.
    MissingSubcommand,
    /// The word in the place of a subcommand names none.
    InvalidSubcommand(String),
    /// A word that no option or argument of the command takes.
    UnknownArgument(String),
    /// An option that takes a value was given none.
    MissingValue(String),
    /// An option that takes no value was given one.
    UnexpectedValue(String),
    /// An option was given more than once.
    Repeated(String),
    /// A required argument is missing.
    MissingRequired(String),
    /// The value of an option is not of its type: the option and the value.
    InvalidValue(String, String),
}

/// A subcommand as data.
pub enum CommandView {
    Run {
        prompt: Seq<char>,
        model: Option<Seq<char>>,
        provider: Option<Seq<char>>,
        max_iterations: u32,
        stream: bool,
    },
    Chat { session: Option<Seq<char>>, model: Option<Seq<char>> },
    SessionList,
    SessionResume(Seq<char>),
    SessionDelete(Seq<char>),
    ConfigShow,
    ConfigSet(Seq<char>, Seq<char>),
    Init,
}

/// A refusal as data.
pub enum CliErrorView {
    DisplayHelp,
    DisplayVersion,
    MissingSubcommand,
    InvalidSubcommand(Seq<char>),
    UnknownArgument(Seq<char>),
    MissingValue(Seq<char>),
    UnexpectedValue(Seq<char>),
    Repeated(Seq<char>),
    MissingRequired(Seq<char>),
    InvalidValue(Seq<char>, Seq<char>),
}

/// The contents of an optional string.
pub open spec fn opt_view(o: Option<String>) -> Option<Seq<char>> {
    match o {
        Some(s) => Some(s@),
        None => None,
    }
}

impl Commands {
    pub open spec fn view(&self) -> CommandView {
        match self {
            Commands::Run { prompt, model, provider, max_iterations, stream } => CommandView::Run {
                prompt: prompt@,
                model: opt_view(*model),
                provider: opt_view(*provider),
                max_iterations: *max_iterations,
                stream: *stream,
            },
            Commands::Chat { session, model } => CommandView::Chat {
                session: opt_view(*session),
                model: opt_view(*model),
            },
            Commands::Session { action } => match action {
                SessionAction::List => CommandView::SessionList,
                SessionAction::Resume { id } => CommandView::SessionResume(id@),
                SessionAction::Delete { id } => CommandView::SessionDelete(id@),
            },
            Commands::Config { action } => match action {
                ConfigAction::Show => CommandView::ConfigShow,
                ConfigAction::SetValue { key, value } => CommandView::ConfigSet(key@, value@),
            },
            Commands::Init => CommandView::Init,
        }
    }
}

impl CliError {
    pub open spec fn view(&self) -> CliErrorView {
        match self {
            CliError::DisplayHelp => CliErrorView::DisplayHelp,
            CliError::DisplayVersion => CliErrorView::DisplayVersion,
            CliError::MissingSubcommand => CliErrorView::MissingSubcommand,
            CliError::InvalidSubcommand(s) => CliErrorView::InvalidSubcommand(s@),
            CliError::UnknownArgument(s) => CliErrorView::UnknownArgument(s@),
            CliError::MissingValue(s) => CliErrorView::MissingValue(s@),
            CliError::UnexpectedValue(s) => CliErrorView::UnexpectedValue(s@),
            CliError::Repeated(s) => CliErrorView::Repeated(s@),
            CliError::MissingRequired(s) => CliErrorView::MissingRequired(s@),
            CliError::InvalidValue(a, v) => CliErrorView::InvalidValue(a@, v@),
        }
    }
}

/// The words of a command line, as character sequences.
pub open spec fn words(args: Seq<&str>) -> Seq<Seq<char>> {
    args.map_values(|s: &str| s@)
}

// ---------------------------------------------------------------------------------------------
// Words
// ---------------------------------------------------------------------------------------------

/// What one word of a command line is.
pub enum Token {
    /// `--`: every word after it is an argument.
    EndOfOptions,
    /// `--name` or `--name=value`.
    Long(Seq<char>, Option<Seq<char>>),
    /// `-c` followed by the rest of the word.
    Short(char, Seq<char>),
    /// Anything else: an argument or a value.
    Value,
}

/// Reads a word: `--` alone ends the options; a word that starts with `--` and has more is a
/// long option, split at its first `=`; a word of at least two characters that starts with
/// `-` is a short option; anything else (`-` alone too) is a value.
pub open spec fn token_of(t: Seq<char>) -> Token {
    if t == seq!['-', '-'] {
        Token::EndOfOptions
    } else if t.len() > 2 && t[0] == '-' && t[1] == '-' {
        let body = t.subrange(2, t.len() as int);
        match first_occurrence(body, seq!['=']) {
            Some(k) => Token::Long(body.subrange(0, k), Some(body.subrange(k + 1, body.len() as int))),
            None => Token::Long(body, None),
        }
    } else if t.len() >= 2 && t[0] == '-' {
        Token::Short(t[1], t.subrange(2, t.len() as int))
    } else {
        Token::Value
    }
}

/// A word that would be read as an option, and so is never taken as an option's value.
pub open spec fn looks_like_option(t: Seq<char>) -> bool {
    t.len() >= 2 && t[0] == '-'
}

/// A word read by `classify`.
pub enum TokenRead {
    EndOfOptions,
    Long(String, Option<String>),
    Short(char, String),
    Value,
}

pub open spec fn token_read_view(t: TokenRead) -> Token {
    match t {
        TokenRead::EndOfOptions => Token::EndOfOptions,
        TokenRead::Long(n, v) => Token::Long(n@, opt_view(v)),
        TokenRead::Short(c, r) => Token::Short(c, r@),
        TokenRead::Value => Token::Value,
    }
}

/// Reads one word of a command line.
pub fn classify(t: &str) -> (r: TokenRead)
    ensures
        token_read_view(r) == token_of(t@),
{
    let c = chars_of(t);
    let n = c.len();
    if n == 2 && c[0] == '-' && c[1] == '-' {
        assert(c@ =~= seq!['-', '-']);
        return TokenRead::EndOfOptions;
    }
    proof {
        if t@ == seq!['-', '-'] {
            assert(c@.len() == 2 && c@[0] == '-' && c@[1] == '-');
        }
    }
    if n > 2 && c[0] == '-' && c[1] == '-' {
        let body_s = string_of(c.as_slice(), 2, n);
        let body = chars_of(body_s.as_str());
        let eq = vec!['='];
        assert(eq@ =~= seq!['=']);
        match find_chars(&body, &eq) {
            Some(k) => {
                let name = string_of(body.as_slice(), 0, k);
                let value = string_of(body.as_slice(), k + 1, body.len());
                TokenRead::Long(name, Some(value))
            },
            None => TokenRead::Long(body_s, None),
        }
    } else if n >= 2 && c[0] == '-' {
        let rest = string_of(c.as_slice(), 2, n);
        TokenRead::Short(c[1], rest)
    } else {
        TokenRead::Value
    }
}

// ---------------------------------------------------------------------------------------------
// Options of each command
// ---------------------------------------------------------------------------------------------

/// Which options a command takes.
#[derive(Clone, Copy, Debug)]
pub enum OptionTable {
    /// `run`: `--model`/`-m`, `--provider`/`-p`, `--max-iterations`, `--stream`/`-s`.
    Run,
    /// `chat`: `--session`/`-s`, `--model`/`-m`.
    Chat,
    /// `init`: no options and no arguments.
    Init,
    /// `session` and `config`: no options; their words name what to do.
    Nested,
}

pub open spec fn option_count(t: OptionTable) -> nat {
    match t {
        OptionTable::Run => 4,
        OptionTable::Chat => 2,
        OptionTable::Init | OptionTable::Nested => 0,
    }
}

/// The long name of each option.
pub open spec fn long_name(t: OptionTable, k: int) -> Seq<char> {
    match t {
        OptionTable::Run => if k == 0 {
            "model"@
        } else if k == 1 {
            "provider"@
        } else if k == 2 {
            "max-iterations"@
        } else {
            "stream"@
        },
        OptionTable::Chat => if k == 0 {
            "session"@
        } else {
            "model"@
        },
        OptionTable::Init | OptionTable::Nested => seq![],
    }
}

/// Whether an option takes a value (`--stream` is a flag).
pub open spec fn takes_value(t: OptionTable, k: int) -> bool {
    !(t is Run && k == 3)
}

/// The option with a long name.
pub open spec fn long_index(t: OptionTable, name: Seq<char>) -> Option<int> {
    match t {
        OptionTable::Run => if name == "model"@ {
            Some(0)
        } else if name == "provider"@ {
            Some(1)
        } else if name == "max-iterations"@ {
            Some(2)
        } else if name == "stream"@ {
            Some(3)
        } else {
            None
        },
        OptionTable::Chat => if name == "session"@ {
            Some(0)
        } else if name == "model"@ {
            Some(1)
        } else {
            None
        },
        OptionTable::Init | OptionTable::Nested => None,
    }
}

/// The option with a short name.
pub open spec fn short_index(t: OptionTable, c: char) -> Option<int> {
    match t {
        OptionTable::Run => if c == 'm' {
            Some(0)
        } else if c == 'p' {
            Some(1)
        } else if c == 's' {
            Some(3)
        } else {
            None
        },
        OptionTable::Chat => if c == 's' {
            Some(0)
        } else if c == 'm' {
            Some(1)
        } else {
            None
        },
        OptionTable::Init | OptionTable::Nested => None,
    }
}

fn long_name_exec(t: OptionTable, k: usize) -> (r: String)
    ensures
        r@ == long_name(t, k as int),
{
    match t {
        OptionTable::Run => if k == 0 {
            owned("model")
        } else if k == 1 {
            owned("provider")
        } else if k == 2 {
            owned("max-iterations")
        } else {
            owned("stream")
        },
        OptionTable::Chat => if k == 0 {
            owned("session")
        } else {
            owned("model")
        },
        OptionTable::Init | OptionTable::Nested => String::new(),
    }
}

fn long_index_exec(t: OptionTable, name: &String) -> (r: Option<usize>)
    ensures
        r matches Some(k) ==> long_index(t, name@) == Some(k as int) && k < option_count(t),
        r is None ==> long_index(t, name@) is None,
{
    match t {
        OptionTable::Run => if *name == owned("model") {
            Some(0)
        } else if *name == owned("provider") {
            Some(1)
        } else if *name == owned("max-iterations") {
            Some(2)
        } else if *name == owned("stream") {
            Some(3)
        } else {
            None
        },
        OptionTable::Chat => if *name == owned("session") {
            Some(0)
        } else if *name == owned("model") {
            Some(1)
        } else {
            None
        },
        OptionTable::Init | OptionTable::Nested => None,
    }
}

fn short_index_exec(t: OptionTable, c: char) -> (r: Option<usize>)
    ensures
        r matches Some(k) ==> short_index(t, c) == Some(k as int) && k < option_count(t),
        r is None ==> short_index(t, c) is None,
{
    match t {
        OptionTable::Run => if c == 'm' {
            Some(0)
        } else if c == 'p' {
            Some(1)
        } else if c == 's' {
            Some(3)
        } else {
            None
        },
        OptionTable::Chat => if c == 's' {
            Some(0)
        } else if c == 'm' {
            Some(1)
        } else {
            None
        },
        OptionTable::Init | OptionTable::Nested => None,
    }
}

fn takes_value_exec(t: OptionTable, k: usize) -> (r: bool)
    ensures
        r == takes_value(t, k as int),
{
    match t {
        OptionTable::Run => k != 3,
        _ => true,
    }
}

fn looks_like_option_exec(w: &str) -> (r: bool)
    ensures
        r == looks_like_option(w@),
{
    let c = chars_of(w);
    c.len() >= 2 && c[0] == '-'
}

// ---------------------------------------------------------------------------------------------
// Reading a command's words
// ---------------------------------------------------------------------------------------------

/// What has been read of a command's words so far: the value given to each option (a flag
/// that was given holds an empty value), the arguments in order, and whether `--` was seen.
pub struct ScanView {
    pub values: Seq<Option<Seq<char>>>,
    pub positionals: Seq<Seq<char>>,
    pub raw: bool,
}

/// Nothing read yet.
pub open spec fn empty_scan(t: OptionTable) -> ScanView {
    ScanView { values: Seq::new(option_count(t), |k: int| None), positionals: seq![], raw: false }
}

/// The value written in the same word as a short option: what follows the letter, without a
/// leading `=`; none when nothing follows.
pub open spec fn short_value(rest: Seq<char>) -> Option<Seq<char>> {
    if rest.len() == 0 {
        None
    } else if rest[0] == '=' {
        Some(rest.subrange(1, rest.len() as int))
    } else {
        Some(rest)
    }
}

/// How many arguments a command takes at most: `run` its prompt, `chat` and `init` none;
/// the words of `session` and `config` are counted after reading.
pub open spec fn max_positionals(t: OptionTable) -> Option<nat> {
    match t {
        OptionTable::Run => Some(1),
        OptionTable::Chat => Some(0),
        OptionTable::Init => Some(0),
        OptionTable::Nested => None,
    }
}

/// Takes word `i` as an argument, unless the command takes no more of them.
pub open spec fn take_positional(t: OptionTable, i: int, st: ScanView, w: Seq<char>) -> Result<
    (int, ScanView),
    CliErrorView,
> {
    match max_positionals(t) {
        Some(m) if st.positionals.len() >= m => Err(CliErrorView::UnknownArgument(w)),
        _ => Ok((i + 1, ScanView { positionals: st.positionals.push(w), ..st })),
    }
}

/// A value that option `k` accepts: `--max-iterations` takes a `u32`, the others any text.
pub open spec fn value_accepted(t: OptionTable, k: int, v: Seq<char>) -> bool {
    !(t is Run && k == 2) || u32_value(v) is Some
}

/// Gives option `k`, met at word `i`, the value written in its word (`inline`) or, for an
/// option that takes a value and has none there, the next word, unless that word is missing
/// or is itself an option. An option given twice, or given a value it does not accept, is
/// refused. Returns where reading goes on.
pub open spec fn set_option(
    t: OptionTable,
    args: Seq<Seq<char>>,
    i: int,
    st: ScanView,
    k: int,
    inline: Option<Seq<char>>,
) -> Result<(int, ScanView), CliErrorView> {
    let name = "--"@ + long_name(t, k);
    if st.values[k] is Some {
        Err(CliErrorView::Repeated(name))
    } else if takes_value(t, k) {
        let taken: Option<(int, Seq<char>)> = match inline {
            Some(v) => Some((i + 1, v)),
            None => if i + 1 < args.len() && !looks_like_option(args[i + 1]) {
                Some((i + 2, args[i + 1]))
            } else {
                None
            },
        };
        match taken {
            None => Err(CliErrorView::MissingValue(name)),
            Some((j, v)) => if value_accepted(t, k, v) {
                Ok((j, ScanView { values: st.values.update(k, Some(v)), ..st }))
            } else {
                Err(CliErrorView::InvalidValue(name, v))
            },
        }
    } else {
        match inline {
            Some(_) => Err(CliErrorView::UnexpectedValue(name)),
            None => Ok((i + 1, ScanView { values: st.values.update(k, Some(seq![])), ..st })),
        }
    }
}

/// Reads word `i`: after `--`, and for a value, it is an argument (one more than the command
/// takes is refused); `--help` and `-h` ask for the usage; an option the command does not
/// take is refused; a short flag with more letters after it is refused.
pub open spec fn step(t: OptionTable, args: Seq<Seq<char>>, i: int, st: ScanView) -> Result<
    (int, ScanView),
    CliErrorView,
> {
    let w = args[i];
    if st.raw {
        take_positional(t, i, st, w)
    } else {
        match token_of(w) {
            Token::EndOfOptions => Ok((i + 1, ScanView { raw: true, ..st })),
            Token::Value => take_positional(t, i, st, w),
            Token::Long(name, inline) => if name == "help"@ {
                Err(CliErrorView::DisplayHelp)
            } else {
                match long_index(t, name) {
                    None => Err(CliErrorView::UnknownArgument(w)),
                    Some(k) => set_option(t, args, i, st, k, inline),
                }
            },
            Token::Short(c, rest) => if c == 'h' {
                Err(CliErrorView::DisplayHelp)
            } else {
                match short_index(t, c) {
                    None => Err(CliErrorView::UnknownArgument(w)),
                    Some(k) => if takes_value(t, k) {
                        set_option(t, args, i, st, k, short_value(rest))
                    } else if rest.len() == 0 {
                        set_option(t, args, i, st, k, None)
                    } else {
                        Err(CliErrorView::UnknownArgument(w))
                    },
                }
            },
        }
    }
}

/// Reads the words from `i` on, one `step` at a time, stopping at the first refusal.
pub open spec fn scan(t: OptionTable, args: Seq<Seq<char>>, i: int, st: ScanView) -> Result<
    ScanView,
    CliErrorView,
>
    decreases args.len() - i,
{
    if i < 0 || i >= args.len() {
        Ok(st)
    } else {
        match step(t, args, i, st) {
            Err(e) => Err(e),
            Ok((j, next)) => if i < j <= args.len() {
                scan(t, args, j, next)
            } else {
                Ok(next)
            },
        }
    }
}

/// The state of reading, in executable form.
pub struct Scanner {
    pub values: Vec<Option<String>>,
    pub positionals: Vec<String>,
    pub raw: bool,
}

impl Scanner {
    pub open spec fn view(&self) -> ScanView {
        ScanView {
            values: self.values@.map_values(|o: Option<String>| opt_view(o)),
            positionals: strs(self.positionals@),
            raw: self.raw,
        }
    }

    fn new(t: OptionTable) -> (r: Scanner)
        ensures
            r.view() == empty_scan(t),
            r.values@.len() == option_count(t),
    {
        let n: usize = match t {
            OptionTable::Run => 4,
            OptionTable::Chat => 2,
            OptionTable::Init | OptionTable::Nested => 0,
        };
        let mut values: Vec<Option<String>> = Vec::new();
        let mut k: usize = 0;
        while k < n
            invariant
                k <= n,
                n == option_count(t),
                values@.len() == k,
                forall|m: int| 0 <= m < k ==> values@[m] is None,
            decreases n - k,
        {
            values.push(None);
            k = k + 1;
        }
        let r = Scanner { values, positionals: Vec::new(), raw: false };
        assert(r.view().values =~= empty_scan(t).values);
        assert(r.view().positionals =~= empty_scan(t).positionals);
        r
    }
}

fn value_accepted_exec(t: OptionTable, k: usize, v: &String) -> (r: bool)
    ensures
        r == value_accepted(t, k as int, v@),
{
    match t {
        OptionTable::Run => k != 2 || parse_u32(v.as_str()).is_some(),
        _ => true,
    }
}

fn take_positional_exec(t: OptionTable, i: usize, st: Scanner, w: &str) -> (r: Result<(usize, Scanner), CliError>)
    requires
        i < usize::MAX,
    ensures
        match r {
            Ok((j, next)) => {
                &&& take_positional(t, i as int, st.view(), w@) == Ok::<(int, ScanView), CliErrorView>((j as int, next.view()))
                &&& j == i + 1
                &&& next.values@ == st.values@
            },
            Err(e) => take_positional(t, i as int, st.view(), w@) == Err::<(int, ScanView), CliErrorView>(e.view()),
        },
{
    let limit: Option<usize> = match t {
        OptionTable::Run => Some(1),
        OptionTable::Chat => Some(0),
        OptionTable::Init => Some(0),
        OptionTable::Nested => None,
    };
    match limit {
        Some(m) => {
            if st.positionals.len() >= m {
                return Err(CliError::UnknownArgument(owned(w)));
            }
        },
        None => {},
    }
    let mut st = st;
    let ghost before = st.positionals@;
    st.positionals.push(owned(w));
    proof {
        crate::text::lemma_strs_push(before, st.positionals@.last());
        assert(st.positionals@ =~= before.push(st.positionals@.last()));
    }
    Ok((i + 1, st))
}

fn set_option_exec(
    t: OptionTable,
    args: &[&str],
    i: usize,
    st: Scanner,
    k: usize,
    inline: Option<String>,
) -> (r: Result<(usize, Scanner), CliError>)
    requires
        i < args@.len(),
        k < option_count(t),
        st.values@.len() == option_count(t),
    ensures
        match r {
            Ok((j, next)) => {
                &&& set_option(t, words(args@), i as int, st.view(), k as int, opt_view(inline))
                    == Ok::<(int, ScanView), CliErrorView>((j as int, next.view()))
                &&& i < j <= args@.len()
                &&& next.values@.len() == option_count(t)
            },
            Err(e) => set_option(t, words(args@), i as int, st.view(), k as int, opt_view(inline))
                == Err::<(int, ScanView), CliErrorView>(e.view()),
        },
{
    let n = args.len();
    let ln = long_name_exec(t, k);
    let name = concat2("--", ln.as_str());
    if st.values[k].is_some() {
        return Err(CliError::Repeated(name));
    }
    let mut st = st;
    let ghost old_values = st.values@;
    if takes_value_exec(t, k) {
        let taken: Option<(usize, String)> = match inline {
            Some(v) => Some((i + 1, v)),
            None => if i + 1 < n && !looks_like_option_exec(args[i + 1]) {
                Some((i + 2, owned(args[i + 1])))
            } else {
                None
            },
        };
        match taken {
            None => Err(CliError::MissingValue(name)),
            Some((j, v)) => {
                if !value_accepted_exec(t, k, &v) {
                    return Err(CliError::InvalidValue(name, v));
                }
                let ghost vv = v@;
                st.values.set(k, Some(v));
                assert(st.view().values =~= old_values.map_values(|o: Option<String>| opt_view(o)).update(k as int, Some(vv)));
                Ok((j, st))
            },
        }
    } else {
        match inline {
            Some(_) => Err(CliError::UnexpectedValue(name)),
            None => {
                st.values.set(k, Some(String::new()));
                assert(st.view().values =~= old_values.map_values(|o: Option<String>| opt_view(o)).update(k as int, Some(seq![])));
                Ok((i + 1, st))
            },
        }
    }
}

fn short_value_exec(rest: String) -> (r: Option<String>)
    ensures
        opt_view(r) == short_value(rest@),
{
    let c = chars_of(rest.as_str());
    if c.len() == 0 {
        None
    } else if c[0] == '=' {
        Some(string_of(c.as_slice(), 1, c.len()))
    } else {
        Some(rest)
    }
}

fn step_exec(t: OptionTable, args: &[&str], i: usize, st: Scanner) -> (r: Result<(usize, Scanner), CliError>)
    requires
        i < args@.len(),
        st.values@.len() == option_count(t),
    ensures
        match r {
            Ok((j, next)) => {
                &&& step(t, words(args@), i as int, st.view()) == Ok::<(int, ScanView), CliErrorView>((j as int, next.view()))
                &&& i < j <= args@.len()
                &&& next.values@.len() == option_count(t)
            },
            Err(e) => step(t, words(args@), i as int, st.view()) == Err::<(int, ScanView), CliErrorView>(e.view()),
        },
{
    let w = args[i];
    let mut st = st;
    if st.raw {
        return take_positional_exec(t, i, st, w);
    }
    match classify(w) {
        TokenRead::EndOfOptions => {
            st.raw = true;
            Ok((i + 1, st))
        },
        TokenRead::Value => take_positional_exec(t, i, st, w),
        TokenRead::Long(name, inline) => {
            if name == owned("help") {
                return Err(CliError::DisplayHelp);
            }
            match long_index_exec(t, &name) {
                None => Err(CliError::UnknownArgument(owned(w))),
                Some(k) => set_option_exec(t, args, i, st, k, inline),
            }
        },
        TokenRead::Short(c, rest) => {
            if c == 'h' {
                return Err(CliError::DisplayHelp);
            }
            match short_index_exec(t, c) {
                None => Err(CliError::UnknownArgument(owned(w))),
                Some(k) => {
                    if takes_value_exec(t, k) {
                        let v = short_value_exec(rest);
                        set_option_exec(t, args, i, st, k, v)
                    } else if crate::text::byte_len_of(rest.as_str()) == 0 {
                        proof {
                            if rest@.len() > 0 {
                                vstd::utf8::encode_utf8_first_scalar(rest@);
                            }
                        }
                        set_option_exec(t, args, i, st, k, None)
                    } else {
                        proof {
                            if rest@.len() == 0 {
                                assert(rest@ =~= seq![]);
                            }
                        }
                        Err(CliError::UnknownArgument(owned(w)))
                    }
                },
            }
        },
    }
}

/// Reads the words of a command from `start` on.
fn scan_words(t: OptionTable, args: &[&str], start: usize) -> (r: Result<Scanner, CliError>)
    requires
        start <= args@.len(),
    ensures
        match r {
            Ok(s) => {
                &&& scan(t, words(args@), start as int, empty_scan(t)) == Ok::<ScanView, CliErrorView>(s.view())
                &&& s.values@.len() == option_count(t)
            },
            Err(e) => scan(t, words(args@), start as int, empty_scan(t)) == Err::<ScanView, CliErrorView>(e.view()),
        },
{
    let n = args.len();
    let mut st = Scanner::new(t);
    let mut i = start;
    while i < n
        invariant
            n == args@.len(),
            start <= i <= n,
            st.values@.len() == option_count(t),
            scan(t, words(args@), i as int, st.view()) == scan(t, words(args@), start as int, empty_scan(t)),
        decreases n - i,
    {
        match step_exec(t, args, i, st) {
            Err(e) => {
                return Err(e);
            },
            Ok((j, next)) => {
                i = j;
                st = next;
            },
        }
    }
    Ok(st)
}

// ---------------------------------------------------------------------------------------------
// Numbers
// ---------------------------------------------------------------------------------------------

/// `s` is one or more decimal digits.
pub open spec fn all_digits(s: Seq<char>) -> bool {
    s.len() > 0 && forall|j: int| 0 <= j < s.len() ==> '0' <= #[trigger] s[j] <= '9'
}

/// The number written by the decimal digits `s`.
pub open spec fn digits_value(s: Seq<char>) -> nat
    decreases s.len(),
{
    if s.len() == 0 {
        0
    } else {
        digits_value(s.drop_last()) * 10 + ((s.last() as int) - 48) as nat
    }
}

/// The integer written by `s`: decimal digits, optionally after a `+` or `-` sign.
pub open spec fn integer_value(s: Seq<char>) -> Option<int> {
    if s.len() > 0 && (s[0] == '+' || s[0] == '-') {
        let d = s.drop_first();
        if all_digits(d) {
            Some(if s[0] == '-' { -(digits_value(d) as int) } else { digits_value(d) as int })
        } else {
            None
        }
    } else if all_digits(s) {
        Some(digits_value(s) as int)
    } else {
        None
    }
}

/// The `u32` written by `s`: an integer in the range of `u32`.
pub open spec fn u32_value(s: Seq<char>) -> Option<u32> {
    match integer_value(s) {
        Some(v) => if 0 <= v <= u32::MAX {
            Some(v as u32)
        } else {
            None
        },
        None => None,
    }
}

/// A number is at least the number written by its leading digits.
pub proof fn lemma_digits_prefix(s: Seq<char>, m: int)
    requires
        0 <= m <= s.len(),
        forall|j: int| 0 <= j < s.len() ==> '0' <= #[trigger] s[j] <= '9',
    ensures
        digits_value(s.subrange(0, m)) <= digits_value(s),
    decreases s.len(),
{
    if m == s.len() {
        assert(s.subrange(0, m) =~= s);
    } else {
        let t = s.drop_last();
        assert(t.subrange(0, m) =~= s.subrange(0, m));
        lemma_digits_prefix(t, m);
    }
}

/// Reads a `u32` written in decimal, with an optional sign (a negative value other than zero
/// is out of range).
pub fn parse_u32(s: &str) -> (r: Option<u32>)
    ensures
        r == u32_value(s@),
{
    let c = chars_of(s);
    let n = c.len();
    let mut start: usize = 0;
    let mut negative = false;
    if n > 0 && (c[0] == '+' || c[0] == '-') {
        negative = c[0] == '-';
        start = 1;
    }
    let ghost d = c@.subrange(start as int, n as int);
    proof {
        if start == 1 {
            assert(d =~= c@.drop_first());
        } else {
            assert(d =~= c@);
        }
    }
    if start == n {
        return None;
    }
    let mut acc: u64 = 0;
    let mut i = start;
    while i < n
        invariant
            n == c@.len(),
            c@ == s@,
            start < n,
            start == 1 <==> (s@.len() > 0 && (s@[0] == '+' || s@[0] == '-')),
            start <= 1,
            negative <==> (start == 1 && s@[0] == '-'),
            d == c@.subrange(start as int, n as int),
            start == 1 ==> d == s@.drop_first(),
            start == 0 ==> d == s@,
            start <= i <= n,
            acc <= u32::MAX,
            acc == digits_value(c@.subrange(start as int, i as int)),
            forall|j: int| start <= j < i ==> '0' <= #[trigger] c@[j] <= '9',
        decreases n - i,
    {
        let ch = c[i];
        if !('0' <= ch && ch <= '9') {
            assert(d[i - start] == ch);
            return None;
        }
        let v: u64 = (ch as u32) as u64 - 48;
        let next = acc * 10 + v;
        proof {
            assert(c@.subrange(start as int, i + 1).drop_last() =~= c@.subrange(start as int, i as int));
        }
        if next > 4294967295 {
            proof {
                if all_digits(d) {
                    assert(d.subrange(0, i + 1 - start) =~= c@.subrange(start as int, i + 1));
                    lemma_digits_prefix(d, i + 1 - start);
                }
            }
            return None;
        }
        acc = next;
        i = i + 1;
    }
    proof {
        assert(all_digits(d)) by {
            assert forall|j: int| 0 <= j < d.len() implies '0' <= #[trigger] d[j] <= '9' by {
                assert(d[j] == c@[start + j]);
            }
        }
        assert(c@.subrange(start as int, i as int) =~= d);
    }
    if negative {
        if acc == 0 {
            Some(0)
        } else {
            None
        }
    } else {
        Some(acc as u32)
    }
}

// ---------------------------------------------------------------------------------------------
// Commands
// ---------------------------------------------------------------------------------------------

/// `run`: exactly one argument, the prompt; `--max-iterations` defaults to ten; output is
/// always streamed (`--stream` is accepted and changes nothing).
pub open spec fn run_command(s: ScanView) -> Result<CommandView, CliErrorView> {
    if s.positionals.len() == 0 {
        Err(CliErrorView::MissingRequired("<PROMPT>"@))
    } else if s.positionals.len() > 1 {
        Err(CliErrorView::UnknownArgument(s.positionals[1]))
    } else {
        let iterations = match s.values[2] {
            None => Some(DEFAULT_MAX_ITERATIONS),
            Some(v) => u32_value(v),
        };
        match iterations {
            None => Err(CliErrorView::InvalidValue("--max-iterations"@, s.values[2]->0)),
            Some(n) => Ok(
                CommandView::Run {
                    prompt: s.positionals[0],
                    model: s.values[0],
                    provider: s.values[1],
                    max_iterations: n,
                    stream: true,
                },
            ),
        }
    }
}

/// `chat`: no arguments.
pub open spec fn chat_command(s: ScanView) -> Result<CommandView, CliErrorView> {
    if s.positionals.len() > 0 {
        Err(CliErrorView::UnknownArgument(s.positionals[0]))
    } else {
        Ok(CommandView::Chat { session: s.values[0], model: s.values[1] })
    }
}

/// `session`: `list`, `resume <ID>` or `delete <ID>`.
pub open spec fn session_command(s: ScanView) -> Result<CommandView, CliErrorView> {
    let p = s.positionals;
    if p.len() == 0 {
        Err(CliErrorView::MissingSubcommand)
    } else if p[0] == "list"@ {
        if p.len() == 1 {
            Ok(CommandView::SessionList)
        } else {
            Err(CliErrorView::UnknownArgument(p[1]))
        }
    } else if p[0] == "resume"@ || p[0] == "delete"@ {
        if p.len() == 1 {
            Err(CliErrorView::MissingRequired("<ID>"@))
        } else if p.len() > 2 {
            Err(CliErrorView::UnknownArgument(p[2]))
        } else if p[0] == "resume"@ {
            Ok(CommandView::SessionResume(p[1]))
        } else {
            Ok(CommandView::SessionDelete(p[1]))
        }
    } else if p[0] == "help"@ {
        Err(CliErrorView::DisplayHelp)
    } else {
        Err(CliErrorView::InvalidSubcommand(p[0]))
    }
}

/// `config`: `show` or `set <KEY> <VALUE>`.
pub open spec fn config_command(s: ScanView) -> Result<CommandView, CliErrorView> {
    let p = s.positionals;
    if p.len() == 0 {
        Err(CliErrorView::MissingSubcommand)
    } else if p[0] == "show"@ {
        if p.len() == 1 {
            Ok(CommandView::ConfigShow)
        } else {
            Err(CliErrorView::UnknownArgument(p[1]))
        }
    } else if p[0] == "set"@ {
        if p.len() == 1 {
            Err(CliErrorView::MissingRequired("<KEY>"@))
        } else if p.len() == 2 {
            Err(CliErrorView::MissingRequired("<VALUE>"@))
        } else if p.len() > 3 {
            Err(CliErrorView::UnknownArgument(p[3]))
        } else {
            Ok(CommandView::ConfigSet(p[1], p[2]))
        }
    } else if p[0] == "help"@ {
        Err(CliErrorView::DisplayHelp)
    } else {
        Err(CliErrorView::InvalidSubcommand(p[0]))
    }
}

/// `init`: no arguments.
pub open spec fn init_command(s: ScanView) -> Result<CommandView, CliErrorView> {
    if s.positionals.len() > 0 {
        Err(CliErrorView::UnknownArgument(s.positionals[0]))
    } else {
        Ok(CommandView::Init)
    }
}

/// The words after the subcommand, read with its options and then checked by `check`.
pub open spec fn then_check(
    scanned: Result<ScanView, CliErrorView>,
    check: spec_fn(ScanView) -> Result<CommandView, CliErrorView>,
) -> Result<CommandView, CliErrorView> {
    match scanned {
        Err(e) => Err(e),
        Ok(s) => check(s),
    }
}

/// What a command line means. The first word names the program; the second is `--help`,
/// `-h` or `help` (usage), `--version` or `-V` (version), or a subcommand, whose words
/// follow.
pub open spec fn parse_spec(args: Seq<Seq<char>>) -> Result<CommandView, CliErrorView> {
    if args.len() < 2 {
        Err(CliErrorView::MissingSubcommand)
    } else {
        let w = args[1];
        if w == "--help"@ || w == "-h"@ || w == "help"@ {
            Err(CliErrorView::DisplayHelp)
        } else if w == "--version"@ || w == "-V"@ {
            Err(CliErrorView::DisplayVersion)
        } else if w == "run"@ {
            then_check(scan(OptionTable::Run, args, 2, empty_scan(OptionTable::Run)), |s: ScanView| run_command(s))
        } else if w == "chat"@ {
            then_check(scan(OptionTable::Chat, args, 2, empty_scan(OptionTable::Chat)), |s: ScanView| chat_command(s))
        } else if w == "session"@ {
            then_check(scan(OptionTable::Nested, args, 2, empty_scan(OptionTable::Nested)), |s: ScanView| session_command(s))
        } else if w == "config"@ {
            then_check(scan(OptionTable::Nested, args, 2, empty_scan(OptionTable::Nested)), |s: ScanView| config_command(s))
        } else if w == "init"@ {
            then_check(scan(OptionTable::Init, args, 2, empty_scan(OptionTable::Init)), |s: ScanView| init_command(s))
        } else if looks_like_option(w) {
            Err(CliErrorView::UnknownArgument(w))
        } else {
            Err(CliErrorView::InvalidSubcommand(w))
        }
    }
}

fn opt_clone(o: &Option<String>) -> (r: Option<String>)
    ensures
        opt_view(r) == opt_view(*o),
{
    match o {
        Some(v) => Some(v.clone()),
        None => None,
    }
}

fn run_command_exec(s: &Scanner) -> (r: Result<Commands, CliError>)
    requires
        s.values@.len() == 4,
    ensures
        match r {
            Ok(c) => run_command(s.view()) == Ok::<CommandView, CliErrorView>(c.view()),
            Err(e) => run_command(s.view()) == Err::<CommandView, CliErrorView>(e.view()),
        },
{
    if s.positionals.len() == 0 {
        return Err(CliError::MissingRequired(owned("<PROMPT>")));
    }
    if s.positionals.len() > 1 {
        return Err(CliError::UnknownArgument(s.positionals[1].clone()));
    }
    let iterations = match &s.values[2] {
        None => Some(DEFAULT_MAX_ITERATIONS),
        Some(v) => parse_u32(v.as_str()),
    };
    match iterations {
        None => {
            let v = match &s.values[2] {
                Some(v) => v.clone(),
                None => String::new(),
            };
            Err(CliError::InvalidValue(owned("--max-iterations"), v))
        },
        Some(n) => Ok(
            Commands::Run {
                prompt: s.positionals[0].clone(),
                model: opt_clone(&s.values[0]),
                provider: opt_clone(&s.values[1]),
                max_iterations: n,
                stream: true,
            },
        ),
    }
}

fn chat_command_exec(s: &Scanner) -> (r: Result<Commands, CliError>)
    requires
        s.values@.len() == 2,
    ensures
        match r {
            Ok(c) => chat_command(s.view()) == Ok::<CommandView, CliErrorView>(c.view()),
            Err(e) => chat_command(s.view()) == Err::<CommandView, CliErrorView>(e.view()),
        },
{
    if s.positionals.len() > 0 {
        return Err(CliError::UnknownArgument(s.positionals[0].clone()));
    }
    Ok(Commands::Chat { session: opt_clone(&s.values[0]), model: opt_clone(&s.values[1]) })
}

fn session_command_exec(s: &Scanner) -> (r: Result<Commands, CliError>)
    ensures
        match r {
            Ok(c) => session_command(s.view()) == Ok::<CommandView, CliErrorView>(c.view()),
            Err(e) => session_command(s.view()) == Err::<CommandView, CliErrorView>(e.view()),
        },
{
    let p = &s.positionals;
    if p.len() == 0 {
        return Err(CliError::MissingSubcommand);
    }
    let is_resume = p[0] == owned("resume");
    if p[0] == owned("list") {
        if p.len() == 1 {
            Ok(Commands::Session { action: SessionAction::List })
        } else {
            Err(CliError::UnknownArgument(p[1].clone()))
        }
    } else if is_resume || p[0] == owned("delete") {
        if p.len() == 1 {
            Err(CliError::MissingRequired(owned("<ID>")))
        } else if p.len() > 2 {
            Err(CliError::UnknownArgument(p[2].clone()))
        } else if is_resume {
            Ok(Commands::Session { action: SessionAction::Resume { id: p[1].clone() } })
        } else {
            Ok(Commands::Session { action: SessionAction::Delete { id: p[1].clone() } })
        }
    } else if p[0] == owned("help") {
        Err(CliError::DisplayHelp)
    } else {
        Err(CliError::InvalidSubcommand(p[0].clone()))
    }
}

fn config_command_exec(s: &Scanner) -> (r: Result<Commands, CliError>)
    ensures
        match r {
            Ok(c) => config_command(s.view()) == Ok::<CommandView, CliErrorView>(c.view()),
            Err(e) => config_command(s.view()) == Err::<CommandView, CliErrorView>(e.view()),
        },
{
    let p = &s.positionals;
    if p.len() == 0 {
        return Err(CliError::MissingSubcommand);
    }
    if p[0] == owned("show") {
        if p.len() == 1 {
            Ok(Commands::Config { action: ConfigAction::Show })
        } else {
            Err(CliError::UnknownArgument(p[1].clone()))
        }
    } else if p[0] == owned("set") {
        if p.len() == 1 {
            Err(CliError::MissingRequired(owned("<KEY>")))
        } else if p.len() == 2 {
            Err(CliError::MissingRequired(owned("<VALUE>")))
        } else if p.len() > 3 {
            Err(CliError::UnknownArgument(p[3].clone()))
        } else {
            Ok(Commands::Config { action: ConfigAction::SetValue { key: p[1].clone(), value: p[2].clone() } })
        }
    } else if p[0] == owned("help") {
        Err(CliError::DisplayHelp)
    } else {
        Err(CliError::InvalidSubcommand(p[0].clone()))
    }
}

fn init_command_exec(s: &Scanner) -> (r: Result<Commands, CliError>)
    ensures
        match r {
            Ok(c) => init_command(s.view()) == Ok::<CommandView, CliErrorView>(c.view()),
            Err(e) => init_command(s.view()) == Err::<CommandView, CliErrorView>(e.view()),
        },
{
    if s.positionals.len() > 0 {
        return Err(CliError::UnknownArgument(s.positionals[0].clone()));
    }
    Ok(Commands::Init)
}

/// What is reported for a refused command line (the requests for help or the version are
/// not refusals, and have no message).
pub open spec fn error_message(e: CliErrorView) -> Seq<char> {
    match e {
        CliErrorView::DisplayHelp => seq![],
        CliErrorView::DisplayVersion => seq![],
        CliErrorView::MissingSubcommand => "'hummingbird' requires a subcommand but one was not provided"@,
        CliErrorView::InvalidSubcommand(w) => "unrecognized subcommand '"@ + w + "'"@,
        CliErrorView::UnknownArgument(w) => "unexpected argument '"@ + w + "' found"@,
        CliErrorView::MissingValue(o) => "a value is required for '"@ + o + "' but none was supplied"@,
        CliErrorView::UnexpectedValue(o) => "unexpected value for '"@ + o + "' found; no more were expected"@,
        CliErrorView::Repeated(o) => "the argument '"@ + o + "' cannot be used multiple times"@,
        CliErrorView::MissingRequired(a) => "the following required arguments were not provided: "@ + a,
        CliErrorView::InvalidValue(o, v) => "invalid value '"@ + v + "' for '"@ + o + "'"@,
    }
}

impl CliError {
    /// The message reported for this refusal.
    pub fn message(&self) -> (r: String)
        ensures
            r@ == error_message(self.view()),
    {
        match self {
            CliError::DisplayHelp => String::new(),
            CliError::DisplayVersion => String::new(),
            CliError::MissingSubcommand => owned("'hummingbird' requires a subcommand but one was not provided"),
            CliError::InvalidSubcommand(w) => crate::text::concat3("unrecognized subcommand '", w.as_str(), "'"),
            CliError::UnknownArgument(w) => crate::text::concat3("unexpected argument '", w.as_str(), "' found"),
            CliError::MissingValue(o) => crate::text::concat3(
                "a value is required for '",
                o.as_str(),
                "' but none was supplied",
            ),
            CliError::UnexpectedValue(o) => crate::text::concat3(
                "unexpected value for '",
                o.as_str(),
                "' found; no more were expected",
            ),
            CliError::Repeated(o) => crate::text::concat3("the argument '", o.as_str(), "' cannot be used multiple times"),
            CliError::MissingRequired(a) => concat2("the following required arguments were not provided: ", a.as_str()),
            CliError::InvalidValue(o, v) => {
                let mut m = crate::text::concat3("invalid value '", v.as_str(), "' for '");
                crate::text::push_str(&mut m, o.as_str());
                crate::text::push_str(&mut m, "'");
                m
            },
        }
    }
}

/// What the program says about itself.
#[derive(Debug)]
pub struct CommandInfo {
    pub name: String,
    pub version: String,
    pub about: String,
}

impl CommandInfo {
    /// The version, when the program has one.
    pub fn get_version(&self) -> (r: Option<&str>)
        ensures
            r matches Some(v) && v@ == self.version@,
    {
        Some(self.version.as_str())
    }
}

impl Cli {
    /// The program's name, version and one-line description.
    pub fn command() -> (r: CommandInfo)
        ensures
            r.name@ == "hummingbird"@,
            r.version@ == VERSION@,
            r.about@ == "Enterprise AI coding assistant \u{2014} self-hosted, terminal-native"@,
    {
        CommandInfo {
            name: owned("hummingbird"),
            version: owned(VERSION),
            about: owned("Enterprise AI coding assistant \u{2014} self-hosted, terminal-native"),
        }
    }

    /// Reads a command line, whose first word names the program.
    pub fn try_parse_from(args: &[&str]) -> (r: Result<Cli, CliError>)
        ensures
            match r {
                Ok(c) => parse_spec(words(args@)) == Ok::<CommandView, CliErrorView>(c.command.view()),
                Err(e) => parse_spec(words(args@)) == Err::<CommandView, CliErrorView>(e.view()),
            },
    {
        let n = args.len();
        if n < 2 {
            return Err(CliError::MissingSubcommand);
        }
        let w = owned(args[1]);
        assert(w@ == words(args@)[1]);
        if w == owned("--help") || w == owned("-h") || w == owned("help") {
            return Err(CliError::DisplayHelp);
        }
        if w == owned("--version") || w == owned("-V") {
            return Err(CliError::DisplayVersion);
        }
        let command = if w == owned("run") {
            let s = scan_words(OptionTable::Run, args, 2)?;
            run_command_exec(&s)
        } else if w == owned("chat") {
            let s = scan_words(OptionTable::Chat, args, 2)?;
            chat_command_exec(&s)
        } else if w == owned("session") {
            let s = scan_words(OptionTable::Nested, args, 2)?;
            session_command_exec(&s)
        } else if w == owned("config") {
            let s = scan_words(OptionTable::Nested, args, 2)?;
            config_command_exec(&s)
        } else if w == owned("init") {
            let s = scan_words(OptionTable::Init, args, 2)?;
            init_command_exec(&s)
        } else if looks_like_option_exec(args[1]) {
            Err(CliError::UnknownArgument(w))
        } else {
            Err(CliError::InvalidSubcommand(w))
        };
        match command {
            Ok(c) => Ok(Cli { command: c }),
            Err(e) => Err(e),
        }
    }
}


/// A `run` line that gives only the prompt runs it with the defaults: no model or provider
/// of its own, ten model calls at most, streamed output.
pub proof fn law_run_prompt_defaults(program: Seq<char>, prompt: Seq<char>)
    requires
        !looks_like_option(prompt),
    ensures
        parse_spec(seq![program, "run"@, prompt]) == Ok::<CommandView, CliErrorView>(
            CommandView::Run {
                prompt,
                model: None,
                provider: None,
                max_iterations: DEFAULT_MAX_ITERATIONS,
                stream: true,
            },
        ),
{
    reveal_strlit("run");
    reveal_strlit("--help");
    reveal_strlit("-h");
    reveal_strlit("help");
    reveal_strlit("--version");
    reveal_strlit("-V");
    let args = seq![program, "run"@, prompt];
    let st0 = empty_scan(OptionTable::Run);
    assert(token_of(prompt) == Token::Value);
    let st1 = ScanView { positionals: st0.positionals.push(prompt), ..st0 };
    assert(step(OptionTable::Run, args, 2, st0) == Ok::<(int, ScanView), CliErrorView>((3, st1)));
    assert(scan(OptionTable::Run, args, 3, st1) == Ok::<ScanView, CliErrorView>(st1));
    assert(scan(OptionTable::Run, args, 2, st0) == Ok::<ScanView, CliErrorView>(st1));
    assert(st1.positionals =~= seq![prompt]);
    assert(st1.values[0] is None && st1.values[1] is None && st1.values[2] is None);
    assert(run_command(st1) == Ok::<CommandView, CliErrorView>(
        CommandView::Run { prompt, model: None, provider: None, max_iterations: DEFAULT_MAX_ITERATIONS, stream: true },
    ));
    assert(args[1] == "run"@);
    assert("run"@.len() == 3 && "--help"@.len() == 6 && "-h"@.len() == 2 && "help"@.len() == 4);
    assert("--version"@.len() == 9 && "-V"@.len() == 2);
    assert(args[1] != "--help"@ && args[1] != "-h"@ && args[1] != "help"@);
    assert(args[1] != "--version"@ && args[1] != "-V"@);
    assert(then_check(scan(OptionTable::Run, args, 2, st0), |s: ScanView| run_command(s)) == run_command(st1));
}

/// The value of an option that takes one may stand in the option's word after `=`, or as
/// the next word, after the long or the short name: each form means the same.
pub proof fn law_option_value_forms(program: Seq<char>, prompt: Seq<char>, model: Seq<char>)
    requires
        !looks_like_option(prompt),
        !looks_like_option(model),
    ensures
        parse_spec(seq![program, "run"@, prompt, "--model"@, model]) == parse_spec(
            seq![program, "run"@, prompt, "--model="@ + model],
        ),
        parse_spec(seq![program, "run"@, prompt, "-m"@, model]) == parse_spec(
            seq![program, "run"@, prompt, "--model"@, model],
        ),
        parse_spec(seq![program, "run"@, prompt, "-m"@, model]) matches Ok(CommandView::Run { model: m, .. })
            && m == Some(model),
{
    reveal_strlit("run");
    reveal_strlit("--help");
    reveal_strlit("-h");
    reveal_strlit("help");
    reveal_strlit("--version");
    reveal_strlit("-V");
    reveal_strlit("--model");
    reveal_strlit("--model=");
    reveal_strlit("-m");
    reveal_strlit("model");
    reveal_strlit("provider");
    reveal_strlit("max-iterations");
    reveal_strlit("stream");
    let t = OptionTable::Run;
    let st0 = empty_scan(t);
    let st1 = ScanView { positionals: st0.positionals.push(prompt), ..st0 };
    let st2 = ScanView { values: st1.values.update(0, Some(model)), ..st1 };
    assert(token_of(prompt) == Token::Value);
    // Two words: `--model` then the value.
    let a = seq![program, "run"@, prompt, "--model"@, model];
    assert("--model"@.subrange(2, 7) =~= "model"@);
    assert(first_occurrence("model"@, seq!['=']) is None) by {
        reveal(first_occurrence);
        assert forall|i: int| !occurs_at("model"@, seq!['='], i) by {
            if occurs_at("model"@, seq!['='], i) {
                assert("model"@.subrange(i, i + 1)[0] == '=');
            }
        }
    }
    assert(token_of("--model"@) == Token::Long("model"@, None));
    assert(step(t, a, 2, st0) == Ok::<(int, ScanView), CliErrorView>((3, st1)));
    assert(step(t, a, 3, st1) == Ok::<(int, ScanView), CliErrorView>((5, st2)));
    assert(scan(t, a, 5, st2) == Ok::<ScanView, CliErrorView>(st2));
    assert(scan(t, a, 3, st1) == Ok::<ScanView, CliErrorView>(st2));
    assert(scan(t, a, 2, st0) == Ok::<ScanView, CliErrorView>(st2));
    // One word: `--model=value`.
    let w = "--model="@ + model;
    let b = seq![program, "run"@, prompt, w];
    let body = w.subrange(2, w.len() as int);
    assert(body =~= "model"@ + seq!['='] + model);
    assert(first_occurrence(body, seq!['=']) == Some(5int)) by {
        assert(occurs_at(body, seq!['='], 5)) by {
            assert(body.subrange(5, 6) =~= seq!['=']);
        }
        assert forall|j: int| 0 <= j < 5 implies !occurs_at(body, seq!['='], j) by {
            assert(body.subrange(j, j + 1)[0] == body[j]);
        }
        lemma_first_occurrence(body, seq!['='], 5);
    }
    assert(body.subrange(0, 5) =~= "model"@);
    assert(body.subrange(6, body.len() as int) =~= model);
    assert(token_of(w) == Token::Long("model"@, Some(model)));
    assert(step(t, b, 2, st0) == Ok::<(int, ScanView), CliErrorView>((3, st1)));
    assert(step(t, b, 3, st1) == Ok::<(int, ScanView), CliErrorView>((4, st2)));
    assert(scan(t, b, 4, st2) == Ok::<ScanView, CliErrorView>(st2));
    assert(scan(t, b, 3, st1) == Ok::<ScanView, CliErrorView>(st2));
    assert(scan(t, b, 2, st0) == Ok::<ScanView, CliErrorView>(st2));
    // Short name, then the value.
    let c = seq![program, "run"@, prompt, "-m"@, model];
    assert("-m"@.subrange(2, 2) =~= Seq::<char>::empty());
    assert(token_of("-m"@) == Token::Short('m', seq![]));
    assert(step(t, c, 2, st0) == Ok::<(int, ScanView), CliErrorView>((3, st1)));
    assert(step(t, c, 3, st1) == Ok::<(int, ScanView), CliErrorView>((5, st2)));
    assert(scan(t, c, 5, st2) == Ok::<ScanView, CliErrorView>(st2));
    assert(scan(t, c, 3, st1) == Ok::<ScanView, CliErrorView>(st2));
    assert(scan(t, c, 2, st0) == Ok::<ScanView, CliErrorView>(st2));
    assert(st2.positionals =~= seq![prompt]);
    assert(st2.values[0] == Some(model) && st2.values[1] is None && st2.values[2] is None);
    assert(run_command(st2) == Ok::<CommandView, CliErrorView>(
        CommandView::Run { prompt, model: Some(model), provider: None, max_iterations: DEFAULT_MAX_ITERATIONS, stream: true },
    ));
    assert("run"@.len() == 3 && "--help"@.len() == 6 && "-h"@.len() == 2 && "help"@.len() == 4);
    assert("--version"@.len() == 9 && "-V"@.len() == 2);
    assert(c[1] != "--help"@ && c[1] != "-h"@ && c[1] != "help"@);
    assert(c[1] != "--version"@ && c[1] != "-V"@);
    assert(then_check(scan(t, c, 2, st0), |s: ScanView| run_command(s)) == run_command(st2));
}

/// Every option of every table is found by its long name, and a long name finds only the
/// option that has it.
pub proof fn law_long_names_reach_their_options(t: OptionTable, k: int, name: Seq<char>)
    ensures
        0 <= k < option_count(t) ==> long_index(t, long_name(t, k)) == Some(k),
        long_index(t, name) matches Some(j) ==> 0 <= j < option_count(t) && long_name(t, j) == name,
        long_index(OptionTable::Run, name) is Some <==> (name == "model"@ || name == "provider"@ || name
            == "max-iterations"@ || name == "stream"@),
        long_index(OptionTable::Chat, name) is Some <==> (name == "session"@ || name == "model"@),
        long_index(OptionTable::Init, name) is None && long_index(OptionTable::Nested, name) is None,
{
    reveal_strlit("model");
    reveal_strlit("provider");
    reveal_strlit("max-iterations");
    reveal_strlit("stream");
    reveal_strlit("session");
    assert("model"@.len() == 5 && "provider"@.len() == 8 && "max-iterations"@.len() == 14 && "stream"@.len() == 6);
    assert("session"@.len() == 7);
    assert("provider"@ != "max-iterations"@ && "provider"@ != "stream"@ && "max-iterations"@ != "stream"@);
}

/// A `chat` line that gives a model, by its long name and then the value, opens a chat with
/// that model and no session.
pub proof fn law_chat_model(program: Seq<char>, model: Seq<char>)
    requires
        !looks_like_option(model),
    ensures
        parse_spec(seq![program, "chat"@, "--model"@, model]) == Ok::<CommandView, CliErrorView>(
            CommandView::Chat { session: None, model: Some(model) },
        ),
{
    reveal_strlit("chat");
    reveal_strlit("run");
    reveal_strlit("--help");
    reveal_strlit("-h");
    reveal_strlit("help");
    reveal_strlit("--version");
    reveal_strlit("-V");
    reveal_strlit("--model");
    reveal_strlit("model");
    reveal_strlit("session");
    let t = OptionTable::Chat;
    let st0 = empty_scan(t);
    let st2 = ScanView { values: st0.values.update(1, Some(model)), ..st0 };
    let a = seq![program, "chat"@, "--model"@, model];
    assert("--model"@.subrange(2, 7) =~= "model"@);
    assert(first_occurrence("model"@, seq!['=']) is None) by {
        reveal(first_occurrence);
        assert forall|i: int| !occurs_at("model"@, seq!['='], i) by {
            if occurs_at("model"@, seq!['='], i) {
                assert("model"@.subrange(i, i + 1)[0] == '=');
            }
        }
    }
    assert(token_of("--model"@) == Token::Long("model"@, None));
    assert("model"@ != "help"@) by {
        assert("help"@.len() == 4);
    }
    assert("model"@ != "session"@) by {
        assert("session"@.len() == 7);
    }
    assert(long_index(t, "model"@) == Some(1int));
    assert(step(t, a, 2, st0) == Ok::<(int, ScanView), CliErrorView>((4, st2)));
    assert(scan(t, a, 4, st2) == Ok::<ScanView, CliErrorView>(st2));
    assert(scan(t, a, 2, st0) == Ok::<ScanView, CliErrorView>(st2));
    assert(st2.positionals.len() == 0);
    assert(st2.values[0] is None && st2.values[1] == Some(model));
    assert(chat_command(st2) == Ok::<CommandView, CliErrorView>(CommandView::Chat { session: None, model: Some(model) }));
    assert("chat"@.len() == 4 && "--help"@.len() == 6 && "-h"@.len() == 2 && "help"@.len() == 4 && "run"@.len() == 3);
    assert("--version"@.len() == 9 && "-V"@.len() == 2);
    assert("chat"@[0] != "help"@[0]);
    assert(a[1] != "--help"@ && a[1] != "-h"@ && a[1] != "help"@);
    assert(a[1] != "--version"@ && a[1] != "-V"@ && a[1] != "run"@);
    assert(then_check(scan(t, a, 2, st0), |s: ScanView| chat_command(s)) == chat_command(st2));
}

/// A short name is the first letter of its option's long name: `-m` for `--model`, `-p` for
/// `--provider`, `-s` for `--stream` in `run` and for `--session` in `chat`.
pub proof fn law_short_names_are_initials(t: OptionTable, c: char)
    ensures
        short_index(t, c) matches Some(k) ==> 0 <= k < option_count(t) && long_name(t, k).len() > 0 && long_name(t, k)[0] == c,
        short_index(OptionTable::Run, c) is Some <==> (c == 'm' || c == 'p' || c == 's'),
        short_index(OptionTable::Chat, c) is Some <==> (c == 's' || c == 'm'),
{
    reveal_strlit("model");
    reveal_strlit("provider");
    reveal_strlit("stream");
    reveal_strlit("session");
}

} // verus!
