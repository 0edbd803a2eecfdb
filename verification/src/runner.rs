//! One-shot runs: which model and provider a run uses, and the prompt it sends, enriched with
//! the workspace's files.
use vstd::prelude::*;
use crate::cli::opt_view;
use crate::config::GlobalConfig;
use crate::text::{concat2, join, owned, push_str, seq_join, strs};

verus! {

/// What a one-shot run was asked to do.
#[derive(Debug)]
pub struct RunConfig {
    pub prompt: String,
    pub model: Option<String>,
    pub provider: Option<String>,
    pub max_iterations: u32,
    pub stream: bool,
    pub workspace: std::path::PathBuf,
}

/// The provider a run talks to.
#[derive(Debug)]
pub enum ProviderChoice {
    OpenAi,
    Anthropic,
    /// Ollama at the given address.
    Ollama { base_url: String },
}

/// A provider choice as data.
pub enum ProviderKind {
    OpenAi,
    Anthropic,
    Ollama(Seq<char>),
}

pub open spec fn provider_kind(c: ProviderChoice) -> ProviderKind {
    match c {
        ProviderChoice::OpenAi => ProviderKind::OpenAi,
        ProviderChoice::Anthropic => ProviderKind::Anthropic,
        ProviderChoice::Ollama { base_url } => ProviderKind::Ollama(base_url@),
    }
}

/// `"openai"` and `"anthropic"` name those providers; any other name means Ollama, at the
/// configured address or on the local machine.
pub open spec fn choose_provider(name: Seq<char>, base_url: Option<Seq<char>>) -> ProviderKind {
    if name == "openai"@ {
        ProviderKind::OpenAi
    } else if name == "anthropic"@ {
        ProviderKind::Anthropic
    } else {
        ProviderKind::Ollama(
            match base_url {
                Some(u) => u,
                None => "http://localhost:11434"@,
            },
        )
    }
}

/// Chooses the provider named `name`.
pub fn choose_provider_exec(name: &str, base_url: &Option<String>) -> (r: ProviderChoice)
    ensures
        provider_kind(r) == choose_provider(name@, opt_view(*base_url)),
{
    let n = owned(name);
    if n == owned("openai") {
        ProviderChoice::OpenAi
    } else if n == owned("anthropic") {
        ProviderChoice::Anthropic
    } else {
        let u = match base_url {
            Some(u) => u.clone(),
            None => owned("http://localhost:11434"),
        };
        ProviderChoice::Ollama { base_url: u }
    }
}

/// How a run goes: the model, the provider and the most model calls.
#[derive(Debug)]
pub struct RunPlan {
    pub model: String,
    pub provider: ProviderChoice,
    pub max_iterations: u32,
}

/// A value given for the run, or the configured one.
pub open spec fn given_or(v: Option<Seq<char>>, configured: Seq<char>) -> Seq<char> {
    match v {
        Some(x) => x,
        None => configured,
    }
}

impl RunConfig {
    /// The plan of the run: the model and provider given for it, or else the configured ones.
    pub fn plan(&self, global: &GlobalConfig) -> (r: RunPlan)
        ensures
            r.model@ == given_or(opt_view(self.model), global.model.model_name@),
            provider_kind(r.provider) == choose_provider(
                given_or(opt_view(self.provider), global.model.provider@),
                opt_view(global.model.base_url),
            ),
            r.max_iterations == self.max_iterations,
    {
        let model = match &self.model {
            Some(m) => m.clone(),
            None => global.model.model_name.clone(),
        };
        let provider = match &self.provider {
            Some(p) => p.clone(),
            None => global.model.provider.clone(),
        };
        let choice = choose_provider_exec(provider.as_str(), &global.model.base_url);
        RunPlan { model, provider: choice, max_iterations: self.max_iterations }
    }
}

/// How many of the gathered files a prompt shows at most.
pub const MAX_CONTEXT_FILES: usize = 20;

/// The block that shows one file in a prompt.
pub open spec fn context_block(path: Seq<char>, content: Seq<char>) -> Seq<char> {
    "=== "@ + path + " ===\n"@ + content + "\n"@
}

/// The files as text: each file's displayed path and its content.
pub open spec fn file_texts(files: Seq<(String, String)>) -> Seq<(Seq<char>, Seq<char>)> {
    files.map_values(|f: (String, String)| (f.0@, f.1@))
}

/// The blocks of the first files shown.
pub open spec fn shown_blocks(files: Seq<(Seq<char>, Seq<char>)>) -> Seq<Seq<char>> {
    let n = if files.len() <= MAX_CONTEXT_FILES { files.len() as int } else { MAX_CONTEXT_FILES as int };
    files.take(n).map_values(|f: (Seq<char>, Seq<char>)| context_block(f.0, f.1))
}

/// The prompt a run sends: the task alone when no file was gathered; otherwise the blocks
/// of the first twenty files, separated by empty lines, under a context heading, then the
/// task under its own heading.
pub open spec fn enriched_prompt(prompt: Seq<char>, files: Seq<(Seq<char>, Seq<char>)>) -> Seq<char> {
    if files.len() == 0 {
        prompt
    } else {
        "# Workspace Context\n"@ + seq_join(shown_blocks(files), "\n"@) + "\n# Task\n"@ + prompt
    }
}

/// The prompt to send for `prompt`, given the gathered files as (displayed path, content).
pub fn enrich_prompt(prompt: &str, files: &[(String, String)]) -> (r: String)
    ensures
        r@ == enriched_prompt(prompt@, file_texts(files@)),
{
    let n = files.len();
    if n == 0 {
        return owned(prompt);
    }
    let shown = if n <= MAX_CONTEXT_FILES { n } else { MAX_CONTEXT_FILES };
    let ghost ft = file_texts(files@);
    let mut blocks: Vec<String> = Vec::new();
    let mut i: usize = 0;
    while i < shown
        invariant
            shown <= n,
            n == files@.len(),
            ft == file_texts(files@),
            shown == (if ft.len() <= MAX_CONTEXT_FILES { ft.len() as int } else { MAX_CONTEXT_FILES as int }),
            i <= shown,
            strs(blocks@) == ft.take(i as int).map_values(|f: (Seq<char>, Seq<char>)| context_block(f.0, f.1)),
        decreases shown - i,
    {
        let mut b = concat2("=== ", files[i].0.as_str());
        push_str(&mut b, " ===\n");
        push_str(&mut b, files[i].1.as_str());
        push_str(&mut b, "\n");
        let ghost before = blocks@;
        blocks.push(b);
        proof {
            crate::text::lemma_strs_push(before, b);
            assert(ft[i as int] == (files@[i as int].0@, files@[i as int].1@));
            assert(ft.take(i + 1).map_values(|f: (Seq<char>, Seq<char>)| context_block(f.0, f.1)) =~= ft.take(
                i as int,
            ).map_values(|f: (Seq<char>, Seq<char>)| context_block(f.0, f.1)).push(context_block(ft[i as int].0, ft[i as int].1)));
        }
        i = i + 1;
    }
    let joined = join(&blocks, "\n");
    let mut r = owned("# Workspace Context\n");
    push_str(&mut r, joined.as_str());
    push_str(&mut r, "\n# Task\n");
    push_str(&mut r, prompt);
    r
}

} // verus!
