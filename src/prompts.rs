//! Where custom prompts live.
use vstd::prelude::*;
use vstd::string::StringExecFns;

verus! {

/// A prompt kept as a Markdown file: its name is the file's stem.
pub struct CustomPrompt {
    pub name: String,
    pub path: String,
    pub content: String,
}

/// `base` joined with the relative component `part`, `/` between them.
pub open spec fn path_join(base: Seq<char>, part: Seq<char>) -> Seq<char> {
    if base.len() == 0 {
        part
    } else if base.last() == '/' {
        base + part
    } else {
        base + seq!['/'] + part
    }
}

fn join(base: &str, part: &str) -> (r: String)
    ensures
        r@ == path_join(base@, part@),
{
    let chars = crate::text::chars_of(base);
    if chars.len() == 0 {
        return part.to_owned();
    }
    let mut out = base.to_owned();
    if chars[chars.len() - 1] == '/' {
        out.append(part);
    } else {
        out.append("/");
        proof {
            reveal_strlit("/");
        }
        out.append(part);
    }
    out
}

/// The prompts directory of a project: `<cwd>/.codex/prompts`.
pub fn project_prompts_dir(cwd: &str) -> (r: String)
    ensures
        r@ == path_join(path_join(cwd@, ".codex"@), "prompts"@),
{
    let dir = join(cwd, ".codex");
    join(dir.as_str(), "prompts")
}

/// The global prompts directory, `<home>/prompts`, where `codex_home` is the
/// configuration home when it could be found.
pub fn default_prompts_dir(codex_home: Option<String>) -> (r: Option<String>)
    ensures
        codex_home is None ==> r is None,
        codex_home matches Some(h) ==> (r matches Some(d) && d@ == path_join(h@, "prompts"@)),
{
    match codex_home {
        Some(home) => Some(join(home.as_str(), "prompts")),
        None => None,
    }
}

} // verus!
