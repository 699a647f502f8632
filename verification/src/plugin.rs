//! How the module comes up as a plugin.
use crate::config::{ConfigView, GitHubConfig};
use crate::module::{GithubModule, ModuleView};
use crate::text::{
    all_white_space, is_white_space, law_trim_keeps_core, law_trimmed, trim, trimmed,
    trimmed_start,
};
use vstd::prelude::*;

verus! {

/// What the settings come to: the module, or why there is none.
pub open spec fn opened(text: Seq<char>, parsed: Result<ConfigView, Seq<char>>) -> Result<
    ModuleView,
    Seq<char>,
> {
    if trimmed(text).len() == 0 {
        Err("github plugin requires config (client_id); none provided"@)
    } else {
        match parsed {
            Ok(cfg) => Ok(ModuleView { cfg, pending: Map::empty() }),
            Err(fault) => Err("invalid github plugin config: "@ + fault),
        }
    }
}

/// Brings the module up from the plugin's settings: `text` as the engine hands them over, and `parsed`
/// as they were read, or why they could not be. Settings of white space alone are refused before any
/// other fault in them.
pub fn open(text: &str, parsed: Result<GitHubConfig, String>) -> (r: Result<GithubModule, String>)
    ensures
        match r {
            Ok(module) => {
                &&& trimmed(text@).len() > 0
                &&& parsed matches Ok(cfg)
                &&& module@ == (ModuleView { cfg: cfg@, pending: Map::empty() })
            },
            Err(message) => if trimmed(text@).len() == 0 {
                message@ == "github plugin requires config (client_id); none provided"@
            } else {
                &&& parsed matches Err(fault)
                &&& message@ == "invalid github plugin config: "@ + fault@
            },
        },
        (match r {
            Ok(module) => Ok(module@),
            Err(message) => Err(message@),
        }) == opened(
            text@,
            match parsed {
                Ok(cfg) => Ok(cfg@),
                Err(fault) => Err(fault@),
            },
        ),
{
    if trim(text).is_empty() {
        return Err("github plugin requires config (client_id); none provided".to_string());
    }
    match parsed {
        Ok(cfg) => Ok(GithubModule::new(cfg)),
        Err(fault) => {
            let mut message = "invalid github plugin config: ".to_string();
            message.append(fault.as_str());
            Err(message)
        },
    }
}

/// Any settings that were read bring the module up with those very settings and no login under way; any
/// fault in them is told in full; and a text of white space alone is refused, whatever was read.
pub proof fn law_opened(text: Seq<char>, at: int, cfg: ConfigView, fault: Seq<char>)
    ensures
        0 <= at < text.len() && !is_white_space(text[at]) ==> {
            &&& opened(text, Ok(cfg)) matches Ok(module)
            &&& module.cfg == cfg
            &&& module.pending.is_empty()
            &&& opened(text, Err(fault)) matches Err(message)
            &&& message == "invalid github plugin config: "@ + fault
        },
        all_white_space(text) ==> {
            &&& opened(text, Ok(cfg)) matches Err(message)
            &&& message == "github plugin requires config (client_id); none provided"@
            &&& opened(text, Err(fault)) == opened(text, Ok(cfg))
        },
{
    if 0 <= at < text.len() && !is_white_space(text[at]) {
        law_trimmed(text);
        lemma_start_kept(text, at);
    }
    if all_white_space(text) {
        let none = Seq::<char>::empty();
        law_trim_keeps_core(text, none, none);
        assert(text + none + none =~= text);
    }
}

proof fn lemma_start_kept(s: Seq<char>, at: int)
    requires
        0 <= at < s.len(),
        !is_white_space(s[at]),
    ensures
        trimmed_start(s).len() > 0,
    decreases s.len(),
{
    if is_white_space(s[0]) {
        assert(s.skip(1)[at - 1] == s[at]);
        lemma_start_kept(s.skip(1), at - 1);
    }
}

} // verus!
