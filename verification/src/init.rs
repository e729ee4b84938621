//! `apiari init`: the configuration that a new workspace starts with.

use crate::config::CURRENT_CONFIG_VERSION;
use crate::text::{
    cat2, cat3, contains, decimal, join, joined, lemma_holds_part, lines, lines_of, number,
    starts_with,
};
use vstd::prelude::*;

verus! {

/// A path below a directory.
pub open spec fn below(root: Seq<char>, rest: Seq<char>) -> Seq<char> {
    if root.len() == 0 {
        rest
    } else if root.last() == '/' {
        root + rest
    } else {
        root + "/"@ + rest
    }
}

/// A path below a directory. `rest` is relative.
pub fn path_below(root: &str, rest: &str) -> (r: String)
    requires
        rest@.len() > 0,
        rest@[0] != '/',
    ensures
        r@ == below(root@, rest@),
{
    let v = crate::text::chars_of(root);
    let n: usize = v.len();
    if n == 0 {
        rest.to_owned()
    } else if v[n - 1] == '/' {
        cat2(root, rest)
    } else {
        cat3(root, "/", rest)
    }
}

/// The configuration up to the coordinator's prompt.
pub open spec fn template_head(root: Seq<char>) -> Seq<char> {
    "config_version = "@ + decimal(CURRENT_CONFIG_VERSION as int) + "\nroot = \""@ + root
        + "\"\nrepos = []  # empty = auto-discover from workspace root\n\n# [telegram]\n# bot_token = \"your-bot-token-from-botfather\"\n# chat_id = 0\n# topic_id = 0\n\n# Token efficiency defaults — applied to all bees in this workspace.\n# Override per-bee with [coordinator.token_controls] or [[bees.token_controls]].\n# These values are already active by default; uncomment to change them.\n# [token_controls]\n# thinking_enabled = false  # disables extended thinking (biggest cost saver for agentic loops)\n# bash_max_output = 20000   # cap bash output at 20k chars (prevents context floods)\n# autocompact_pct = 70      # compact at 70% full instead of waiting until 95%+\n\n[coordinator]\nmodel = \"sonnet\"\nmax_turns = 20\nprompt = \"\"\"\n"@
}

/// The configuration from the coordinator's prompt on.
pub open spec fn template_tail(root: Seq<char>) -> Seq<char> {
    "\"\"\"\n\n# [watchers.github]\n# repos = [\"owner/repo1\", \"owner/repo2\"]\n# interval_secs = 120\n\n# [watchers.sentry]\n# org = \"my-org\"\n# project = \"my-project\"\n# token = \"sntrys_...\"\n# interval_secs = 120\n\n# [[commands]]\n# name = \"reinstall\"\n# script = \"cargo install --force --path "@
        + root + "/cli/crates/apiari 2>&1 && cargo install --force --path "@ + root
        + "/swarm 2>&1\"\n# description = \"Rebuild and install apiari and swarm binaries\"\n# restart = true\n\n# [watchers.swarm]\n# state_path = \""@
        + below(root, ".swarm/state.json"@) + "\"\n# interval_secs = 15\n"@
}

/// The configuration that a new workspace starts with.
pub open spec fn template_of(root: Seq<char>, prompt: Seq<char>) -> Seq<char> {
    template_head(root) + join(lines(prompt), "\n"@) + template_tail(root)
}

/// The configuration that a new workspace starts with. `prompt` is what the
/// coordinator is told by default.
pub fn workspace_template(root: &str, prompt: &str) -> (r: String)
    ensures
        r@ == template_of(root@, prompt@),
{
    let version = number(CURRENT_CONFIG_VERSION as u64);
    let mut out = cat3("config_version = ", version.as_str(), "\nroot = \"");
    out.push_str(root);
    out.push_str(
        "\"\nrepos = []  # empty = auto-discover from workspace root\n\n# [telegram]\n# bot_token = \"your-bot-token-from-botfather\"\n# chat_id = 0\n# topic_id = 0\n\n# Token efficiency defaults — applied to all bees in this workspace.\n# Override per-bee with [coordinator.token_controls] or [[bees.token_controls]].\n# These values are already active by default; uncomment to change them.\n# [token_controls]\n# thinking_enabled = false  # disables extended thinking (biggest cost saver for agentic loops)\n# bash_max_output = 20000   # cap bash output at 20k chars (prevents context floods)\n# autocompact_pct = 70      # compact at 70% full instead of waiting until 95%+\n\n[coordinator]\nmodel = \"sonnet\"\nmax_turns = 20\nprompt = \"\"\"\n",
    );
    let list = lines_of(prompt);
    let body = joined(&list, "\n");
    out.push_str(body.as_str());
    proof {
        reveal_strlit(".swarm/state.json");
    }
    let state = path_below(root, ".swarm/state.json");
    let mut tail =
        "\"\"\"\n\n# [watchers.github]\n# repos = [\"owner/repo1\", \"owner/repo2\"]\n# interval_secs = 120\n\n# [watchers.sentry]\n# org = \"my-org\"\n# project = \"my-project\"\n# token = \"sntrys_...\"\n# interval_secs = 120\n\n# [[commands]]\n# name = \"reinstall\"\n# script = \"cargo install --force --path ".to_owned();
    tail.push_str(root);
    tail.push_str("/cli/crates/apiari 2>&1 && cargo install --force --path ");
    tail.push_str(root);
    tail.push_str(
        "/swarm 2>&1\"\n# description = \"Rebuild and install apiari and swarm binaries\"\n# restart = true\n\n# [watchers.swarm]\n# state_path = \"",
    );
    tail.push_str(state.as_str());
    tail.push_str("\"\n# interval_secs = 15\n");
    out.push_str(tail.as_str());
    out
}

/// The name of a new workspace: the one that is asked for, else that of its
/// directory, else a general one.
pub fn workspace_name(asked: &Option<String>, directory: &Option<String>) -> (r: String)
    ensures
        r@ == match *asked {
            Some(s) => s@,
            None => match *directory {
                Some(d) => d@,
                None => "workspace"@,
            },
        },
{
    match asked {
        Some(s) => s.clone(),
        None => match directory {
            Some(d) => d.clone(),
            None => "workspace".to_owned(),
        },
    }
}

/// What became of installing the worker manager.
pub enum InstallOutcome {
    Installed,
    Failed,
    /// It could not be tried, for this reason.
    NotRun(String),
}

/// What is said about installing the worker manager.
pub fn install_message(outcome: &InstallOutcome) -> (r: String)
    ensures
        r@ == match *outcome {
            InstallOutcome::Installed => "\n  \u{2713} apiari-swarm installed successfully\n"@,
            InstallOutcome::Failed =>
                "\n  Failed to install apiari-swarm. You can retry manually:\n  cargo install apiari-swarm\n"@,
            InstallOutcome::NotRun(e) => "\n  Could not run cargo install: "@ + e@
                + "\n  Install manually: cargo install apiari-swarm\n"@,
        },
{
    match outcome {
        InstallOutcome::Installed => "\n  \u{2713} apiari-swarm installed successfully\n".to_owned(),
        InstallOutcome::Failed =>
            "\n  Failed to install apiari-swarm. You can retry manually:\n  cargo install apiari-swarm\n".to_owned(),
        InstallOutcome::NotRun(e) => cat3(
            "\n  Could not run cargo install: ",
            e.as_str(),
            "\n  Install manually: cargo install apiari-swarm\n",
        ),
    }
}

/// A path below a directory is the directory, one slash and the rest.
pub proof fn law_one_slash_stands_between(root: Seq<char>, rest: Seq<char>)
    ensures
        root.len() == 0 ==> below(root, rest) == rest,
        root.len() > 0 && root.last() != '/' ==> below(root, rest) == root + "/"@ + rest,
        root.len() > 0 && root.last() == '/' ==> below(root, rest) == root + rest,
        below(below(root, "/"@), rest) == below(root, "/"@) + rest || root.len() == 0,
{
    reveal_strlit("/");
    if root.len() > 0 {
        let b = below(root, "/"@);
        assert(b.last() == '/');
    }
}

/// A new configuration has the current version, the workspace's directory and
/// the prompt.
pub proof fn law_template_holds_directory_and_prompt(root: Seq<char>, prompt: Seq<char>)
    ensures
        starts_with(
            template_of(root, prompt),
            "config_version = "@ + decimal(CURRENT_CONFIG_VERSION as int) + "\nroot = \""@ + root
                + "\""@,
        ),
        contains(template_of(root, prompt), join(lines(prompt), "\n"@)),
        contains(template_of(root, prompt), below(root, ".swarm/state.json"@)),
{
    reveal_strlit("\"");
    let all = template_of(root, prompt);
    let head = "config_version = "@ + decimal(CURRENT_CONFIG_VERSION as int) + "\nroot = \""@
        + root;
    let body = join(lines(prompt), "\n"@);
    lemma_holds_part(template_head(root), body, template_tail(root));
    reveal_strlit(
        "\"\nrepos = []  # empty = auto-discover from workspace root\n\n# [telegram]\n# bot_token = \"your-bot-token-from-botfather\"\n# chat_id = 0\n# topic_id = 0\n\n# Token efficiency defaults — applied to all bees in this workspace.\n# Override per-bee with [coordinator.token_controls] or [[bees.token_controls]].\n# These values are already active by default; uncomment to change them.\n# [token_controls]\n# thinking_enabled = false  # disables extended thinking (biggest cost saver for agentic loops)\n# bash_max_output = 20000   # cap bash output at 20k chars (prevents context floods)\n# autocompact_pct = 70      # compact at 70% full instead of waiting until 95%+\n\n[coordinator]\nmodel = \"sonnet\"\nmax_turns = 20\nprompt = \"\"\"\n",
    );
    let h = head + "\""@;
    assert(all.subrange(0, h.len() as int) =~= h);
    let path = below(root, ".swarm/state.json"@);
    let before = template_head(root) + body + (template_tail(root).take(
        template_tail(root).len() - path.len() - "\"\n# interval_secs = 15\n"@.len(),
    ));
    let after = "\"\n# interval_secs = 15\n"@;
    assert(all =~= before + path + after);
    lemma_holds_part(before, path, after);
}

} // verus!
